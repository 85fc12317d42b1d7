//! Replay writer bookkeeping: bounded shard batching, shard naming and
//! numbering, and the manifest that indexes committed shards.
//!
//! The writer decides *what* is written: which games form the next shard,
//! under which name, and what the manifest then records. Encoding a shard's
//! games and moving bytes to disk happen outside, between
//! [`ReplayWriter::take_pending`] and [`ReplayWriter::record_shard`].

use vstd::prelude::*;

use crate::replay::schema::{
    clone_shards, GameRecord, Manifest, PlyRecord, ReplayHeader, ShardInfo, sum_bytes, sum_games,
};
use crate::text::{
    all_digits, decimal, decimal_string, digits_value, lemma_zero_pad_decimal, parse_u32_range,
    parse_u32_spec, zero_pad,
};

verus! {

/// Width of the zero-padded shard number.
pub const SHARD_NUMBER_WIDTH: usize = 6;

/// `"shard-"`.
pub open spec fn shard_prefix() -> Seq<char> {
    seq!['s', 'h', 'a', 'r', 'd', '-']
}

/// `".r64shard"`.
pub open spec fn shard_suffix() -> Seq<char> {
    seq!['.', 'r', '6', '4', 's', 'h', 'a', 'r', 'd']
}

/// The file name of shard number `index` (`shard-NNNNNN.r64shard`).
pub open spec fn shard_file_name_spec(index: u32) -> Seq<char> {
    shard_prefix() + zero_pad(decimal(index as nat), 6) + shard_suffix()
}

/// The shard number encoded in a file name, if it is a shard file name.
pub open spec fn parse_shard_index_spec(s: Seq<char>) -> Option<u32> {
    if s.len() >= 15 && s.take(6) == shard_prefix() && s.skip(s.len() - 9) == shard_suffix() {
        parse_u32_spec(s.subrange(6, s.len() - 9))
    } else {
        None
    }
}

/// The largest shard number named by the entries, if any names one.
pub open spec fn max_shard_index(s: Seq<ShardInfo>) -> Option<u32>
    decreases s.len(),
{
    if s.len() == 0 {
        None
    } else {
        let rest = max_shard_index(s.drop_last());
        match parse_shard_index_spec(s.last().file@) {
            None => rest,
            Some(i) => match rest {
                None => Some(i),
                Some(m) => Some(if i > m { i } else { m }),
            },
        }
    }
}

/// The shard number that continues after the entries.
pub open spec fn next_shard_index_spec(s: Seq<ShardInfo>) -> u32 {
    match max_shard_index(s) {
        None => 0,
        Some(m) => (m + 1) as u32,
    }
}

/// The file name of shard number `index`.
pub fn shard_file_name(index: u32) -> (r: String)
    ensures
        r@ == shard_file_name_spec(index),
{
    proof {
        reveal_strlit("shard-");
        reveal_strlit("0");
        reveal_strlit(".r64shard");
    }
    let digits = decimal_string(index);
    let mut out = String::from_str("shard-");
    let n = digits.as_str().unicode_len();
    let mut k = n;
    let ghost zeros = Seq::<char>::empty();
    while k < SHARD_NUMBER_WIDTH
        invariant
            n == decimal(index as nat).len(),
            n <= k <= (if n > 6 { n } else { 6 }),
            zeros.len() == k - n,
            forall|i: int| 0 <= i < zeros.len() ==> zeros[i] == '0',
            out@ == shard_prefix() + zeros,
        decreases SHARD_NUMBER_WIDTH - k,
    {
        proof {
            reveal_strlit("0");
        }
        out.append("0");
        proof {
            zeros = zeros.push('0');
            assert(out@ =~= shard_prefix() + zeros);
        }
        k = k + 1;
    }
    proof {
        let d = decimal(index as nat);
        if d.len() < 6 {
            assert(zeros =~= Seq::new((6 - d.len()) as nat, |i: int| '0'));
        } else {
            assert(zeros =~= Seq::<char>::empty());
        }
        assert(zeros + d =~= zero_pad(d, 6));
    }
    out.append(digits.as_str());
    out.append(".r64shard");
    assert(out@ =~= shard_file_name_spec(index));
    out
}

/// The shard number in a shard file name; `None` for any other name.
pub fn parse_shard_index(file: &str) -> (r: Option<u32>)
    ensures
        r == parse_shard_index_spec(file@),
{
    let len = file.unicode_len();
    if len < 15 {
        return None;
    }
    let p = file.get_char(0) == 's' && file.get_char(1) == 'h' && file.get_char(2) == 'a'
        && file.get_char(3) == 'r' && file.get_char(4) == 'd' && file.get_char(5) == '-';
    if !p {
        proof {
            if file@.take(6) == shard_prefix() {
                assert(file@.take(6)[0] == file@[0]);
                assert(file@.take(6)[1] == file@[1]);
                assert(file@.take(6)[2] == file@[2]);
                assert(file@.take(6)[3] == file@[3]);
                assert(file@.take(6)[4] == file@[4]);
                assert(file@.take(6)[5] == file@[5]);
            }
        }
        return None;
    }
    assert(file@.take(6) =~= shard_prefix());
    let b = len - 9;
    let q = file.get_char(b) == '.' && file.get_char(b + 1) == 'r' && file.get_char(b + 2) == '6'
        && file.get_char(b + 3) == '4' && file.get_char(b + 4) == 's' && file.get_char(b + 5)
        == 'h' && file.get_char(b + 6) == 'a' && file.get_char(b + 7) == 'r' && file.get_char(b + 8)
        == 'd';
    let ghost tail = file@.skip(b as int);
    if !q {
        proof {
            if tail == shard_suffix() {
                assert(tail[0] == file@[b as int]);
                assert(tail[1] == file@[b + 1]);
                assert(tail[2] == file@[b + 2]);
                assert(tail[3] == file@[b + 3]);
                assert(tail[4] == file@[b + 4]);
                assert(tail[5] == file@[b + 5]);
                assert(tail[6] == file@[b + 6]);
                assert(tail[7] == file@[b + 7]);
                assert(tail[8] == file@[b + 8]);
            }
        }
        return None;
    }
    assert(tail =~= shard_suffix());
    parse_u32_range(file, 6, b)
}

/// The shard number a writer appending after `shards` starts at: one past
/// the largest existing shard number, or 0.
pub fn next_shard_index(shards: &Vec<ShardInfo>) -> (r: u32)
    requires
        max_shard_index(shards@) != Some(u32::MAX),
    ensures
        r == next_shard_index_spec(shards@),
{
    let mut best: Option<u32> = None;
    let mut i: usize = 0;
    while i < shards.len()
        invariant
            i <= shards@.len(),
            best == max_shard_index(shards@.take(i as int)),
        decreases shards.len() - i,
    {
        assert(shards@.take(i + 1).drop_last() =~= shards@.take(i as int));
        let parsed = parse_shard_index(shards[i].file.as_str());
        match parsed {
            None => {},
            Some(v) => {
                best = match best {
                    None => Some(v),
                    Some(m) => Some(if v > m { v } else { m }),
                };
            },
        }
        i = i + 1;
    }
    assert(shards@.take(i as int) =~= shards@);
    match best {
        None => 0,
        Some(m) => m + 1,
    }
}

/// Shard file names read back as the number they were written for.
pub proof fn lemma_shard_name_round_trip(index: u32)
    ensures
        parse_shard_index_spec(shard_file_name_spec(index)) == Some(index),
{
    lemma_zero_pad_decimal(index as nat, 6);
    let mid = zero_pad(decimal(index as nat), 6);
    let s = shard_file_name_spec(index);
    assert(s.take(6) =~= shard_prefix());
    assert(s.skip(s.len() - 9) =~= shard_suffix());
    assert(s.subrange(6, s.len() - 9) =~= mid);
    assert(mid[0] != '+');
}

/// Every existing entry's shard number is at most the largest one.
proof fn lemma_max_bounds(s: Seq<ShardInfo>, i: int)
    requires
        0 <= i < s.len(),
        parse_shard_index_spec(s[i].file@) is Some,
    ensures
        max_shard_index(s) is Some,
        parse_shard_index_spec(s[i].file@)->Some_0 <= max_shard_index(s)->Some_0,
    decreases s.len(),
{
    if i < s.len() - 1 {
        assert(s.drop_last()[i] == s[i]);
        lemma_max_bounds(s.drop_last(), i);
    }
}

/// Appending never reuses a name: every shard a writer numbers from
/// `next_shard_index` on gets a file name that no existing entry has.
#[verifier::rlimit(30)]
pub proof fn lemma_appended_names_are_fresh(shards: Seq<ShardInfo>, index: u32, i: int)
    requires
        max_shard_index(shards) != Some(u32::MAX),
        index >= next_shard_index_spec(shards),
        0 <= i < shards.len(),
    ensures
        shards[i].file@ != shard_file_name_spec(index),
{
    if shards[i].file@ == shard_file_name_spec(index) {
        lemma_shard_name_round_trip(index);
        assert(parse_shard_index_spec(shards[i].file@) == Some(index));
        lemma_max_bounds(shards, i);
        let m = max_shard_index(shards)->Some_0;
        assert(index <= m);
        assert(next_shard_index_spec(shards) == (m + 1) as u32);
    }
}

/// Why a writer could not be created.
#[derive(Debug, Clone, Copy, PartialEq, Eq)]
pub enum WriterError {
    /// `shard_max_games` must be at least one.
    ZeroShardSize,
}

/// A shard: a header plus a bounded batch of games.
#[derive(Debug, PartialEq, Eq)]
pub struct Shard {
    pub header: ReplayHeader,
    pub games: Vec<GameRecord>,
}

/// The next shard to commit, with the file name it must be written under.
#[derive(Debug)]
pub struct PendingShard {
    pub file: String,
    pub shard: Shard,
}

/// Number of plies summed over games.
pub open spec fn total_plies(games: Seq<GameRecord>) -> nat
    decreases games.len(),
{
    if games.len() == 0 { 0 } else { total_plies(games.drop_last()) + games.last().plies@.len() }
}

/// Writes replay games into bounded shards under a directory.
pub struct ReplayWriter {
    dir: String,
    header: ReplayHeader,
    shard_max_games: usize,
    buffer: Vec<GameRecord>,
    shard_index: u32,
    shards: Vec<ShardInfo>,
    games_written: u64,
    bytes_written: u64,
}

impl ReplayWriter {
    /// The replay directory.
    pub closed spec fn dir_spec(&self) -> Seq<char> {
        self.dir@
    }

    /// The header every shard carries.
    pub closed spec fn header_spec(&self) -> ReplayHeader {
        self.header
    }

    /// Games per shard.
    pub closed spec fn shard_max_games_spec(&self) -> nat {
        self.shard_max_games as nat
    }

    /// Games buffered for the next shard.
    pub closed spec fn buffered(&self) -> Seq<GameRecord> {
        self.buffer@
    }

    /// The number the next shard is written under.
    pub closed spec fn next_index(&self) -> u32 {
        self.shard_index
    }

    /// Committed shards, in order.
    pub closed spec fn committed(&self) -> Seq<ShardInfo> {
        self.shards@
    }

    /// Games committed so far (including those of an appended-to manifest).
    pub closed spec fn games_written_spec(&self) -> u64 {
        self.games_written
    }

    /// Shard bytes committed so far (including an appended-to manifest's).
    pub closed spec fn bytes_written_spec(&self) -> u64 {
        self.bytes_written
    }

    /// The running totals agree with the committed shards: `games_written`
    /// is the sum of their game counts and `bytes_written` of their sizes.
    pub open spec fn accounting_ok(&self) -> bool {
        &&& self.games_written_spec() == sum_games(self.committed())
        &&& self.bytes_written_spec() == sum_bytes(self.committed())
    }

    /// A writer for a fresh replay directory (one without a manifest).
    pub fn new(dir: String, header: ReplayHeader, shard_max_games: usize) -> (r: Result<Self, WriterError>)
        ensures
            shard_max_games == 0 ==> r == Err::<Self, WriterError>(WriterError::ZeroShardSize),
            shard_max_games >= 1 ==> r is Ok && ({
                let w = r->Ok_0;
                &&& w.dir_spec() == dir@
                &&& w.header_spec() == header
                &&& w.shard_max_games_spec() == shard_max_games
                &&& w.buffered().len() == 0
                &&& w.next_index() == 0
                &&& w.committed().len() == 0
                &&& w.games_written_spec() == 0
                &&& w.bytes_written_spec() == 0
                &&& w.accounting_ok()
            }),
    {
        if shard_max_games < 1 {
            return Err(WriterError::ZeroShardSize);
        }
        Ok(ReplayWriter {
            dir,
            header,
            shard_max_games,
            buffer: Vec::new(),
            shard_index: 0,
            shards: Vec::new(),
            games_written: 0,
            bytes_written: 0,
        })
    }

    /// A writer that appends to a replay directory. With an existing manifest
    /// its shards are retained, its counts continue, and shard numbering
    /// resumes one past the largest existing shard number; without one this
    /// is [`ReplayWriter::new`].
    pub fn open_append(dir: String, header: ReplayHeader, shard_max_games: usize, existing: Option<Manifest>) -> (r: Result<Self, WriterError>)
        requires
            existing matches Some(m) ==> max_shard_index(m.shards@) != Some(u32::MAX),
        ensures
            shard_max_games == 0 ==> r == Err::<Self, WriterError>(WriterError::ZeroShardSize),
            shard_max_games >= 1 ==> r is Ok && ({
                let w = r->Ok_0;
                &&& w.dir_spec() == dir@
                &&& w.header_spec() == header
                &&& w.shard_max_games_spec() == shard_max_games
                &&& w.buffered().len() == 0
                &&& match existing {
                    Some(m) => {
                        &&& w.next_index() == next_shard_index_spec(m.shards@)
                        &&& w.committed() == m.shards@
                        &&& w.games_written_spec() == m.games
                        &&& w.bytes_written_spec() == m.bytes
                        &&& (m.games == sum_games(m.shards@) && m.bytes == sum_bytes(m.shards@)
                            ==> w.accounting_ok())
                    },
                    None => {
                        &&& w.next_index() == 0
                        &&& w.committed().len() == 0
                        &&& w.games_written_spec() == 0
                        &&& w.bytes_written_spec() == 0
                        &&& w.accounting_ok()
                    },
                }
            }),
    {
        if shard_max_games < 1 {
            return Err(WriterError::ZeroShardSize);
        }
        match existing {
            Some(m) => {
                let next = next_shard_index(&m.shards);
                Ok(ReplayWriter {
                    dir,
                    header,
                    shard_max_games,
                    buffer: Vec::new(),
                    shard_index: next,
                    shards: m.shards,
                    games_written: m.games,
                    bytes_written: m.bytes,
                })
            },
            None => Ok(ReplayWriter {
                dir,
                header,
                shard_max_games,
                buffer: Vec::new(),
                shard_index: 0,
                shards: Vec::new(),
                games_written: 0,
                bytes_written: 0,
            }),
        }
    }

    /// Buffer a game. Returns `true` when the buffer has reached
    /// `shard_max_games` and the shard must be flushed now.
    pub fn push(&mut self, game: GameRecord) -> (flush_now: bool)
        ensures
            final(self).buffered() == old(self).buffered().push(game),
            flush_now == (final(self).buffered().len() >= final(self).shard_max_games_spec()),
            final(self).dir_spec() == old(self).dir_spec(),
            final(self).header_spec() == old(self).header_spec(),
            final(self).shard_max_games_spec() == old(self).shard_max_games_spec(),
            final(self).next_index() == old(self).next_index(),
            final(self).committed() == old(self).committed(),
            final(self).games_written_spec() == old(self).games_written_spec(),
            final(self).bytes_written_spec() == old(self).bytes_written_spec(),
    {
        self.buffer.push(game);
        self.buffer.len() >= self.shard_max_games
    }

    /// Games committed so far.
    pub fn games_written(&self) -> (r: u64)
        ensures
            r == self.games_written_spec(),
    {
        self.games_written
    }

    /// The replay directory.
    pub fn dir(&self) -> (r: &String)
        ensures
            r@ == self.dir_spec(),
    {
        &self.dir
    }

    /// Take the buffered games as the next shard to commit, named for the
    /// current shard number; `None` when nothing is buffered.
    pub fn take_pending(&mut self) -> (r: Option<PendingShard>)
        ensures
            old(self).buffered().len() == 0 ==> r is None && final(self).buffered().len() == 0,
            old(self).buffered().len() > 0 ==> r is Some && ({
                let p = r->Some_0;
                &&& p.file@ == shard_file_name_spec(old(self).next_index())
                &&& p.shard.header == old(self).header_spec()
                &&& p.shard.games@ == old(self).buffered()
            }),
            final(self).buffered().len() == 0,
            final(self).dir_spec() == old(self).dir_spec(),
            final(self).header_spec() == old(self).header_spec(),
            final(self).shard_max_games_spec() == old(self).shard_max_games_spec(),
            final(self).next_index() == old(self).next_index(),
            final(self).committed() == old(self).committed(),
            final(self).games_written_spec() == old(self).games_written_spec(),
            final(self).bytes_written_spec() == old(self).bytes_written_spec(),
    {
        if self.buffer.len() == 0 {
            return None;
        }
        let mut games: Vec<GameRecord> = Vec::new();
        std::mem::swap(&mut games, &mut self.buffer);
        Some(PendingShard {
            file: shard_file_name(self.shard_index),
            shard: Shard { header: self.header.clone(), games },
        })
    }

    /// Record the current shard as durably on disk: `games` were written
    /// under the current shard's file name as `file_len` bytes whose payload
    /// checksum is `crc`.
    pub fn record_shard(&mut self, games: &Vec<GameRecord>, file_len: u64, crc: u32)
        requires
            old(self).next_index() < u32::MAX,
            old(self).games_written_spec() + games@.len() <= u64::MAX,
            old(self).bytes_written_spec() + file_len <= u64::MAX,
            total_plies(games@) <= u64::MAX,
        ensures
            final(self).committed().len() == old(self).committed().len() + 1,
            final(self).committed().drop_last() == old(self).committed(),
            final(self).committed().last().file@ == shard_file_name_spec(old(self).next_index()),
            final(self).committed().last().games == games@.len(),
            final(self).committed().last().positions == total_plies(games@),
            final(self).committed().last().bytes == file_len,
            final(self).committed().last().crc32 == crc,
            final(self).games_written_spec() == old(self).games_written_spec() + games@.len(),
            final(self).bytes_written_spec() == old(self).bytes_written_spec() + file_len,
            final(self).next_index() == old(self).next_index() + 1,
            old(self).accounting_ok() ==> final(self).accounting_ok(),
            final(self).buffered() == old(self).buffered(),
            final(self).dir_spec() == old(self).dir_spec(),
            final(self).header_spec() == old(self).header_spec(),
            final(self).shard_max_games_spec() == old(self).shard_max_games_spec(),
    {
        let mut positions: u64 = 0;
        let mut i: usize = 0;
        while i < games.len()
            invariant
                i <= games@.len(),
                positions == total_plies(games@.take(i as int)),
                total_plies(games@) <= u64::MAX,
            decreases games.len() - i,
        {
            assert(games@.take(i + 1).drop_last() =~= games@.take(i as int));
            proof {
                lemma_total_plies_prefix(games@, i + 1);
            }
            positions = positions + games[i].plies.len() as u64;
            i = i + 1;
        }
        assert(games@.take(i as int) =~= games@);
        let file = shard_file_name(self.shard_index);
        let info = ShardInfo {
            file,
            games: games.len() as u64,
            positions,
            bytes: file_len,
            crc32: crc,
        };
        proof {
            assert(self.shards@.push(info).drop_last() =~= self.shards@);
        }
        self.shards.push(info);
        self.games_written = self.games_written + games.len() as u64;
        self.bytes_written = self.bytes_written + file_len;
        self.shard_index = self.shard_index + 1;
    }

    /// The manifest of everything committed so far.
    pub fn manifest(&self) -> (m: Manifest)
        ensures
            m.header == self.header_spec(),
            m.shards@ == self.committed(),
            m.games == self.games_written_spec(),
            m.bytes == self.bytes_written_spec(),
    {
        Manifest {
            header: self.header.clone(),
            shards: clone_shards(&self.shards),
            games: self.games_written,
            bytes: self.bytes_written,
        }
    }
}

/// Ply totals grow with the prefix taken.
pub proof fn lemma_total_plies_prefix(games: Seq<GameRecord>, j: int)
    requires
        0 <= j <= games.len(),
    ensures
        total_plies(games.take(j)) <= total_plies(games),
    decreases games.len() - j,
{
    if j < games.len() {
        lemma_total_plies_prefix(games, j + 1);
        assert(games.take(j + 1).drop_last() =~= games.take(j));
    } else {
        assert(games.take(j) =~= games);
    }
}

} // verus!

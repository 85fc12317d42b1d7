use recur64::replay::audit::{audit_games, audit_dir, AuditError, GameFacts, PlyFacts, ShardAudit};
use recur64::replay::frame::{check_decoded_shard, check_shard_frame, encode_shard_frame, ShardError};
use recur64::replay::reader::ReplayReader;
use recur64::replay::schema::{ContractError, GameRecord, PlyRecord, ReplayHeader, SearchRecord};
use recur64::replay::writer::{next_shard_index, parse_shard_index, shard_file_name, ReplayWriter, WriterError};
use recur64::rules::{Color, Termination};

const ONE: u32 = 0x3F80_0000; // 1.0f32
const HALF: u32 = 0x3F00_0000; // 0.5f32

fn header() -> ReplayHeader {
    ReplayHeader::new("test-run".to_string(), "model-abc".to_string(), "cpu".to_string(), "fp32".to_string())
}

/// A four-ply game that Black wins by checkmate (White is to move at the end).
fn mate_game(id: u64) -> GameRecord {
    let plies = (0..4u16)
        .map(|i| PlyRecord {
            selected: 100 + i,
            target: vec![(100 + i, HALF), (200 + i, HALF)],
            visits_total: 2,
            side_to_move: (i % 2) as u8,
        })
        .collect();
    GameRecord {
        game_id: id,
        start_fen: "startpos".to_string(),
        seed: id,
        search: SearchRecord { simulations: 2, c_puct: ONE, temperature: ONE, recurrence: 1 },
        plies,
        termination: Termination::Checkmate.label().to_string(),
        outcome: Some(2),
    }
}

/// What a rules engine reports when replaying `g` cleanly, ending in
/// `end` with `end_side` to move.
fn clean_facts(g: &GameRecord, end: Option<Termination>, end_side: Color) -> GameFacts {
    GameFacts {
        start_ok: true,
        plies: g
            .plies
            .iter()
            .map(|p| PlyFacts {
                legal: p.target.iter().map(|(a, _)| *a as u32).collect(),
                side_to_move: if p.side_to_move == 0 { Color::White } else { Color::Black },
                target_sum_ok: true,
                target_sum_bits: ONE,
                selected_index_valid: true,
                applied: true,
            })
            .collect(),
        end_termination: end,
        end_side_to_move: end_side,
    }
}

fn mate_facts(g: &GameRecord) -> GameFacts {
    clean_facts(g, Some(Termination::Checkmate), Color::White)
}

#[test]
fn write_read_roundtrip_and_audit() {
    let mut w = ReplayWriter::new("roundtrip".to_string(), header(), 2).unwrap();
    let mut all = Vec::new();
    for id in 0..5 {
        let g = mate_game(id);
        all.push(g.clone());
        if w.push(g) {
            let p = w.take_pending().unwrap();
            w.record_shard(&p.shard.games, 100, 7);
        }
    }
    if let Some(p) = w.take_pending() {
        w.record_shard(&p.shard.games, 60, 9);
    }
    let manifest = w.manifest();
    assert_eq!(manifest.games, 5);
    assert_eq!(manifest.shards.len(), 3);
    assert_eq!(manifest.shards[2].games, 1);
    assert_eq!(manifest.shards[0].positions, 8);
    assert_eq!(manifest.bytes, 260);

    let reader = ReplayReader::from_manifest("roundtrip".to_string(), manifest).unwrap();
    assert_eq!(reader.manifest().games, 5);

    let facts: Vec<GameFacts> = all.iter().map(mate_facts).collect();
    let report = audit_games(&all, &facts);
    assert!(report.ok(), "audit errors: {:?}", report.errors);
    assert_eq!(report.games, 5);
    assert!(report.plies > 0);
    assert_eq!(report.plies, 20);
}

#[test]
fn audit_rejects_truncated_with_outcome() {
    let mut g = mate_game(0);
    g.termination = Termination::Truncated.label().to_string();
    g.outcome = Some(1);
    let f = clean_facts(&g, None, Color::White);
    let report = audit_games(&vec![g], &vec![f]);
    assert!(!report.ok());
    assert!(report.errors.contains(&AuditError::OutcomeWithoutResult { game_id: 0 }));
}

#[test]
fn audit_rejects_illegal_selected_action() {
    let mut g = mate_game(0);
    g.plies[0].selected = 20479;
    let f = mate_facts(&g);
    let report = audit_games(&vec![g], &vec![f]);
    assert!(!report.ok());
    assert!(report.errors.contains(&AuditError::SelectedNotLegal { game_id: 0, ply: 0 }));
}

#[test]
fn audit_rejects_bad_target_sum() {
    let g = mate_game(0);
    let mut f = mate_facts(&g);
    f.plies[0].target_sum_ok = false;
    f.plies[0].target_sum_bits = HALF;
    let report = audit_games(&vec![g], &vec![f]);
    assert!(!report.ok());
    assert!(report.errors.contains(&AuditError::TargetSum { game_id: 0, ply: 0, sum_bits: HALF }));
}

#[test]
fn audit_reports_each_finding_kind() {
    let mut g = mate_game(3);
    g.search.simulations = 0;
    g.plies[1].target.push((999, 0xFFC0_0000)); // NaN probability on an illegal action
    g.plies[2].side_to_move = 1;
    let f = mate_facts(&mate_game(3));
    let report = audit_games(&vec![g.clone(), g], &vec![f.clone(), f]);
    assert!(report.errors.contains(&AuditError::ZeroBudget { game_id: 3 }));
    assert!(report.errors.contains(&AuditError::TargetNotLegal { game_id: 3, ply: 1, action: 999 }));
    assert!(report.errors.contains(&AuditError::BadTargetProb { game_id: 3, ply: 1, prob_bits: 0xFFC0_0000 }));
    assert!(report.errors.contains(&AuditError::SideToMoveMismatch { game_id: 3, ply: 2 }));
    assert!(report.errors.contains(&AuditError::DuplicateGameId { game_id: 3 }));
}

#[test]
fn audit_checks_the_final_position() {
    let g = mate_game(1);
    let wrong_winner = clean_facts(&g, Some(Termination::Checkmate), Color::Black);
    let r = audit_games(&vec![g.clone()], &vec![wrong_winner]);
    assert_eq!(r.errors, vec![AuditError::CheckmateOutcome { game_id: 1, outcome: Some(2), expected: 0 }]);

    let not_over = clean_facts(&g, None, Color::White);
    let r = audit_games(&vec![g.clone()], &vec![not_over]);
    assert_eq!(
        r.errors,
        vec![AuditError::TerminationMismatch { game_id: 1, actual: None, recorded: Termination::Checkmate }]
    );

    let mut draw = g.clone();
    draw.termination = "stalemate".to_string();
    let f = clean_facts(&draw, Some(Termination::Stalemate), Color::White);
    let r = audit_games(&vec![draw], &vec![f]);
    assert_eq!(r.errors, vec![AuditError::NonCheckmateNotDraw { game_id: 1 }]);
}

#[test]
fn audit_stops_a_game_at_an_illegal_move() {
    let g = mate_game(2);
    let mut f = mate_facts(&g);
    f.plies[1].applied = false;
    let r = audit_games(&vec![g.clone()], &vec![f]);
    assert_eq!(r.errors, vec![AuditError::IllegalMove { game_id: 2, ply: 1 }]);
    assert_eq!(r.plies, 2);

    let mut f = mate_facts(&g);
    f.plies[0].selected_index_valid = false;
    let r = audit_games(&vec![g.clone()], &vec![f]);
    assert_eq!(r.errors, vec![AuditError::InvalidActionIndex { game_id: 2, ply: 0 }]);

    let mut f = mate_facts(&g);
    f.start_ok = false;
    let r = audit_games(&vec![g], &vec![f]);
    assert_eq!(r.errors, vec![AuditError::BadStartFen { game_id: 2 }]);
}

#[test]
fn audit_rejects_headerless_games() {
    let mut g = mate_game(4);
    g.plies.clear();
    let f = GameFacts { start_ok: true, plies: vec![], end_termination: None, end_side_to_move: Color::White };
    let r = audit_games(&vec![g.clone()], &vec![f.clone()]);
    assert_eq!(r.errors, vec![AuditError::NoPlies { game_id: 4 }]);

    let mut g = mate_game(4);
    g.termination = "resigned".to_string();
    let f = mate_facts(&g);
    let r = audit_games(&vec![g], &vec![f]);
    assert_eq!(r.errors, vec![AuditError::UnknownTermination { game_id: 4, label: "resigned".to_string() }]);

    let mut g = mate_game(5);
    g.outcome = None;
    let f = mate_facts(&g);
    let r = audit_games(&vec![g], &vec![f]);
    assert!(r.errors.contains(&AuditError::ResultWithoutOutcome { game_id: 5 }));
}

#[test]
fn shard_audit_reports_unreadable_and_miscounted_shards() {
    let g0 = mate_game(0);
    let g1 = mate_game(1);
    let shards = vec![
        ShardAudit {
            file: "shard-000000.r64shard".to_string(),
            manifest_games: 2,
            contents: Ok((vec![g0.clone()], vec![mate_facts(&g0)])),
        },
        ShardAudit {
            file: "shard-000001.r64shard".to_string(),
            manifest_games: 1,
            contents: Err("checksum".to_string()),
        },
        ShardAudit {
            file: "shard-000002.r64shard".to_string(),
            manifest_games: 1,
            contents: Ok((vec![g1.clone()], vec![mate_facts(&g1)])),
        },
    ];
    let r = audit_dir(&shards);
    assert_eq!(r.shards, 3);
    assert_eq!(r.games, 2);
    assert_eq!(r.plies, 8);
    assert_eq!(
        r.errors,
        vec![
            AuditError::ShardGameCount { file: "shard-000000.r64shard".to_string(), actual: 1, manifest: 2 },
            AuditError::ShardUnreadable { file: "shard-000001.r64shard".to_string(), reason: "checksum".to_string() },
        ]
    );
}

#[test]
fn frame_checksum_detects_corruption() {
    let payload = b"some encoded games".to_vec();
    let mut bytes = encode_shard_frame(&payload);
    assert_eq!(bytes.len(), 16 + payload.len());
    assert_eq!(&bytes[0..4], &[0x52, 0x36, 0x34, 0x53]);
    assert_eq!(check_shard_frame(&bytes).unwrap(), &payload[..]);
    let n = bytes.len();
    bytes[n - 1] ^= 0xFF;
    assert!(matches!(check_shard_frame(&bytes), Err(ShardError::ChecksumMismatch { .. })));
}

#[test]
fn frame_rejects_short_foreign_and_truncated_bytes() {
    assert_eq!(check_shard_frame(&[1, 2, 3]), Err(ShardError::TooShort { len: 3 }));
    let good = encode_shard_frame(b"abc");
    let mut foreign = good.clone();
    foreign[0] = b'X';
    assert_eq!(check_shard_frame(&foreign), Err(ShardError::BadMagic));
    let mut version = good.clone();
    version[4] = 9;
    assert_eq!(check_shard_frame(&version), Err(ShardError::SchemaVersion { found: 9 }));
    let cut = &good[..good.len() - 1];
    assert_eq!(check_shard_frame(cut), Err(ShardError::LengthMismatch { declared: 3, actual: 2 }));
}

#[test]
fn frame_crc_is_crc32_ieee() {
    let bytes = encode_shard_frame(b"123456789");
    assert_eq!(u32::from_le_bytes([bytes[12], bytes[13], bytes[14], bytes[15]]), 0xCBF4_3926);
}

#[test]
fn decoded_shard_must_consume_all_bytes_and_match_contracts() {
    let h = header();
    assert_eq!(check_decoded_shard(10, 10, &h), Ok(()));
    assert_eq!(check_decoded_shard(8, 10, &h), Err(ShardError::TrailingBytes { consumed: 8, len: 10 }));
    let mut old = header();
    old.replay_schema_version = 0;
    assert_eq!(
        check_decoded_shard(10, 10, &old),
        Err(ShardError::Header(ContractError::SchemaVersion { found: 0 }))
    );
}

#[test]
fn reader_refuses_foreign_contracts() {
    let mut w = ReplayWriter::new("r".to_string(), header(), 4).unwrap();
    w.push(mate_game(0));
    let mut m = w.manifest();
    m.header.action_version = 99;
    assert!(matches!(ReplayReader::from_manifest("r".to_string(), m), Err(ContractError::Mismatch { .. })));
}

#[test]
fn shard_names_round_trip_and_appends_continue_numbering() {
    assert_eq!(shard_file_name(0), "shard-000000.r64shard");
    assert_eq!(shard_file_name(1234567), "shard-1234567.r64shard");
    assert_eq!(parse_shard_index("shard-000042.r64shard"), Some(42));
    assert_eq!(parse_shard_index("shard-000001.r64shard.tmp"), None);
    assert_eq!(parse_shard_index("notes.txt"), None);
    assert_eq!(ReplayWriter::new("x".to_string(), header(), 0).err(), Some(WriterError::ZeroShardSize));

    let mut w = ReplayWriter::new("a".to_string(), header(), 1).unwrap();
    for id in 0..3 {
        w.push(mate_game(id));
        let p = w.take_pending().unwrap();
        w.record_shard(&p.shard.games, 10, 0);
    }
    let m = w.manifest();
    assert_eq!(next_shard_index(&m.shards), 3);
    let mut again = ReplayWriter::open_append("a".to_string(), header(), 1, Some(m)).unwrap();
    again.push(mate_game(3));
    let p = again.take_pending().unwrap();
    assert_eq!(p.file, "shard-000003.r64shard");
    assert_eq!(again.games_written(), 3);
}

#[test]
fn audit_rejects_an_empty_target() {
    let mut g = mate_game(7);
    let f = mate_facts(&g);
    g.plies[3].target.clear();
    let r = audit_games(&vec![g], &vec![f]);
    assert_eq!(r.errors, vec![AuditError::EmptyTarget { game_id: 7, ply: 3 }]);
}

#[test]
fn every_single_byte_corruption_of_a_frame_is_refused() {
    let good = encode_shard_frame(b"recur64 shard payload");
    assert!(check_shard_frame(&good).is_ok());
    for i in 0..good.len() {
        for delta in [0x01u8, 0x80, 0xFF] {
            let mut bad = good.clone();
            bad[i] ^= delta;
            assert!(check_shard_frame(&bad).is_err(), "byte {} changed by {:#x} was accepted", i, delta);
        }
    }
}

use emojify_tg_sticker::reconcile::reconcile;
use emojify_tg_sticker::reconcile::Plan;
use emojify_tg_sticker::reconcile::PlanOp;
use emojify_tg_sticker::reconcile::RemotePack;

fn pack(ids: &[&str]) -> RemotePack {
    RemotePack { remote_ids: ids.iter().map(|s| s.to_string()).collect() }
}

#[test]
fn absent_pack_becomes_one_create() {
    let plan = reconcile(&None, 5);
    assert_eq!(plan, Plan::Create { tile_count: 5 });
}

#[test]
fn growing_pack_replaces_then_appends() {
    let existing = Some(pack(&["a", "b", "c"]));
    let plan = reconcile(&existing, 5);
    let ops = match plan {
        Plan::Edit { ops } => ops,
        other => panic!("expected an edit plan, got {:?}", other),
    };
    assert_eq!(
        ops,
        vec![
            PlanOp::Replace { index: 0, remote_id: "a".to_owned() },
            PlanOp::Replace { index: 1, remote_id: "b".to_owned() },
            PlanOp::Replace { index: 2, remote_id: "c".to_owned() },
            PlanOp::Append { index: 3 },
            PlanOp::Append { index: 4 },
        ]
    );
}

#[test]
fn shrinking_pack_leaves_trailing_entries_untouched() {
    let existing = Some(pack(&["a", "b", "c", "d", "e"]));
    let plan = reconcile(&existing, 3);
    let ops = match plan {
        Plan::Edit { ops } => ops,
        other => panic!("expected an edit plan, got {:?}", other),
    };
    assert_eq!(
        ops,
        vec![
            PlanOp::Replace { index: 0, remote_id: "a".to_owned() },
            PlanOp::Replace { index: 1, remote_id: "b".to_owned() },
            PlanOp::Replace { index: 2, remote_id: "c".to_owned() },
        ]
    );
    // The stale remote entries remain: nothing in the plan names them, and
    // the pack handed in is unchanged.
    let remaining = existing.unwrap();
    assert_eq!(remaining.remote_ids.len(), 5);
    assert_eq!(remaining.remote_ids[3], "d");
    assert_eq!(remaining.remote_ids[4], "e");
    for op in &ops {
        match op {
            PlanOp::Replace { index, .. } => assert!(*index < 3),
            PlanOp::Append { index } => assert!(*index < 3),
        }
    }
}

#[test]
fn empty_existing_pack_appends_everything() {
    let plan = reconcile(&Some(pack(&[])), 2);
    assert_eq!(
        plan,
        Plan::Edit {
            ops: vec![PlanOp::Append { index: 0 }, PlanOp::Append { index: 1 }]
        }
    );
}

#[test]
fn no_new_tiles_yields_empty_edit() {
    let plan = reconcile(&Some(pack(&["a", "b", "c"])), 0);
    assert_eq!(plan, Plan::Edit { ops: Vec::new() });
}

#[test]
fn create_of_empty_tile_set() {
    let plan = reconcile(&None, 0);
    assert_eq!(plan, Plan::Create { tile_count: 0 });
}

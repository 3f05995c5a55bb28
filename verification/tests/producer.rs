use neonia_swarm::models::predef_components;
use neonia_swarm::producer::{
    batch_complete_line, done_event, record_push, sector_components, summary_line, working_event,
    ProducerState,
};

fn names(batch: u64) -> Vec<&'static str> {
    sector_components(batch).iter().map(|c| c.name).collect()
}

#[test]
fn catalog_holds_ten_buildings() {
    let all = predef_components();
    assert_eq!(all.len(), 10);
    assert_eq!(all[0].name, "IRON MINE");
    assert_eq!((all[4].width, all[4].height), (240, 160));
    assert_eq!(all[9].svg_file, "solar_array.svg");
}

#[test]
fn sectors_cycle_through_three_groups() {
    assert_eq!(names(0), ["SOLAR ARRAY", "IRON MINE", "SMELTER", "ASSEMBLER", "WAREHOUSE"]);
    assert_eq!(names(1), ["SOLAR ARRAY", "COPPER MINE", "SMELTER", "ASSEMBLER", "TRANSPORT HUB"]);
    assert_eq!(names(2), ["SOLAR ARRAY", "FLUID PUMP", "POWER PLANT", "RESEARCH LAB", "WAREHOUSE"]);
    for b in 0..9 {
        assert_eq!(names(b), names(b + 3));
    }
}

#[test]
fn producer_state_counts_batches() {
    let mut p = ProducerState::new();
    let first: Vec<&str> = p.next_batch().iter().map(|c| c.name).collect();
    let second: Vec<&str> = p.next_batch().iter().map(|c| c.name).collect();
    assert_eq!(p.batch_count, 2);
    assert_eq!(first, names(0));
    assert_eq!(second, names(1));
}

#[test]
fn summary_lists_pushed_buildings() {
    let all = predef_components();
    assert_eq!(summary_line(&all[0]), "- IRON MINE (140x140)\n");
    let mut summary = String::new();
    record_push(&mut summary, &all[9], true);
    record_push(&mut summary, &all[0], false);
    record_push(&mut summary, &all[7], true);
    assert_eq!(summary, "- SOLAR ARRAY (160x240)\n- FLUID PUMP (100x160)\n");
    assert_eq!(batch_complete_line(&summary), format!("[PRODUCER] \u{2705} Batch Complete:\n{}", summary));
}

#[test]
fn producer_events() {
    let w = working_event();
    assert_eq!((w.agent_id.as_str(), w.status.as_str(), w.details.as_str()), ("Producer", "working", "Generating Mechanism Segment..."));
    let d = done_event("- X (1x1)\n");
    assert_eq!((d.agent_id.as_str(), d.status.as_str(), d.details.as_str()), ("Producer", "done", "- X (1x1)\n"));
}

use cargo_heu::engine::Aggregator;
use cargo_heu::format::total_line;
use cargo_heu::reorder::ReorderBuffer;
use cargo_heu::score::{CaseResult, Pattern};

fn result(case: u32, score: u64) -> CaseResult {
    let s = Pattern::compile(r"Score = (\d+)").unwrap();
    let c = Pattern::compile(r"^# (.*)$").unwrap();
    CaseResult::new(
        case,
        format!("in/{:04}.txt", case),
        format!("out/{:04}.txt", case),
        format!("Score = {}", score),
        String::new(),
        10,
        &s,
        &c,
    )
}

#[test]
fn buffer_emits_in_position_order() {
    let mut b: ReorderBuffer<u32> = ReorderBuffer::new(5);
    let mut seen = Vec::new();
    for pos in [3usize, 1, 4, 0, 2] {
        assert!(b.is_pending(pos));
        seen.extend(b.accept(pos, pos as u32 * 10));
    }
    assert_eq!(seen, vec![0, 10, 20, 30, 40]);
    assert!(b.is_done());
}

#[test]
fn buffer_holds_until_prefix_is_complete() {
    let mut b: ReorderBuffer<&str> = ReorderBuffer::new(3);
    assert_eq!(b.accept(2, "c"), Vec::<&str>::new());
    assert_eq!(b.accept(1, "b"), Vec::<&str>::new());
    assert!(!b.is_pending(2));
    assert_eq!(b.accept(0, "a"), vec!["a", "b", "c"]);
}

#[test]
fn every_arrival_order_reports_ascending() {
    let orders: Vec<Vec<usize>> = vec![
        vec![0, 1, 2, 3],
        vec![3, 2, 1, 0],
        vec![1, 3, 0, 2],
        vec![2, 0, 3, 1],
    ];
    for order in orders {
        let mut b: ReorderBuffer<usize> = ReorderBuffer::new(4);
        let mut seen = Vec::new();
        for pos in order {
            seen.extend(b.accept(pos, pos));
        }
        assert_eq!(seen, vec![0, 1, 2, 3]);
    }
}

#[test]
fn aggregator_reports_three_cases_and_total() {
    // Three cases whose solutions summed "1 2", "3 4" and "5 6", finishing out of order.
    let mut agg = Aggregator::new(3);
    let mut lines = Vec::new();
    lines.extend(agg.receive(2, result(2, 11)));
    assert!(lines.is_empty());
    lines.extend(agg.receive(0, result(0, 3)));
    assert_eq!(lines.len(), 1);
    lines.extend(agg.receive(1, result(1, 7)));
    assert!(agg.is_done());
    assert_eq!(
        lines,
        vec![
            "0000 SCORE[          3] ELAPSED[0.01s] CMTS[]",
            "0001 SCORE[          7] ELAPSED[0.01s] CMTS[]",
            "0002 SCORE[         11] ELAPSED[0.01s] CMTS[]",
        ]
    );
    assert_eq!(agg.total(), 21);
    assert_eq!(total_line(agg.total()), "TOTAL=21");
    assert_eq!(agg.last().unwrap().outf, "out/0002.txt");
}

#[test]
fn aggregator_total_saturates() {
    let mut agg = Aggregator::new(2);
    agg.receive(0, result(0, u64::MAX));
    agg.receive(1, result(1, 5));
    assert_eq!(agg.total(), u64::MAX);
}

#[test]
fn same_inputs_give_same_scores() {
    let a = result(4, 1234);
    let b = result(4, 1234);
    assert_eq!(a.score, b.score);
    assert_eq!(a.report_line(), b.report_line());
}

#[test]
fn aggregator_reports_in_order_for_every_arrival_order() {
    let orders: Vec<Vec<usize>> = vec![vec![2, 1, 0], vec![1, 2, 0], vec![0, 2, 1]];
    for order in orders {
        let mut agg = Aggregator::new(3);
        let mut lines = Vec::new();
        for pos in order {
            assert!(agg.is_pending(pos));
            lines.extend(agg.receive(pos, result(pos as u32, pos as u64 + 1)));
        }
        let cases: Vec<String> = lines.iter().map(|l| l[..4].to_string()).collect();
        assert_eq!(cases, vec!["0000", "0001", "0002"]);
        assert_eq!(agg.total(), 6);
    }
}

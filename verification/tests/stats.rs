use zarr_cli::stats::{
    find_zarr_exec_stats, live_line, stats_line, total_rows, IoSummary, PlanNode,
};

fn io(coord_arrays: u64, data_arrays: u64, disk: Option<&str>, mem: &str) -> Option<IoSummary> {
    Some(IoSummary {
        coord_arrays,
        data_arrays,
        disk: disk.map(str::to_string),
        mem: mem.to_string(),
    })
}

#[test]
fn stats_line_has_every_part() {
    assert_eq!(
        stats_line(5, "0.013", &io(2, 1, Some("6.70 KB"), "13.92 KB")),
        "5 rows · 3 arrays · 6.70 KB disk · 13.92 KB mem · 0.013s"
    );
}

#[test]
fn one_is_singular() {
    assert_eq!(
        stats_line(1, "1.000", &io(0, 1, Some("0 B"), "8 B")),
        "1 row · 1 array · 0 B disk · 8 B mem · 1.000s"
    );
    assert_eq!(stats_line(0, "0.002", &None), "0 rows · 0.002s");
}

#[test]
fn uncounted_disk_reads_are_not_nothing() {
    assert_eq!(
        stats_line(2, "0.1", &io(0, 0, None, "0 B")),
        "2 rows · 0 arrays · n/a disk · 0 B mem · 0.1s"
    );
}

#[test]
fn live_line_overwrites_its_line() {
    assert_eq!(
        live_line(1, 0, &Some("1 KB".to_string())),
        "\r1 array · 1 KB disk...\x1b[K"
    );
    assert_eq!(live_line(3, 4, &None), "\r7 arrays · n/a disk...\x1b[K");
}

#[test]
fn rows_of_all_batches_count() {
    assert_eq!(total_rows(&vec![]), Some(0));
    assert_eq!(total_rows(&vec![3, 0, 39]), Some(42));
    assert_eq!(total_rows(&vec![usize::MAX]), Some(usize::MAX));
    assert_eq!(total_rows(&vec![usize::MAX, 1]), None);
}

fn node(stats: Option<u32>, children: Vec<PlanNode<u32>>) -> PlanNode<u32> {
    PlanNode { stats, children }
}

#[test]
fn plans_are_searched_from_the_root_down() {
    let none = node(None, vec![node(None, vec![]), node(None, vec![node(None, vec![])])]);
    assert_eq!(find_zarr_exec_stats(&none), None);
    let deep = node(None, vec![
        node(None, vec![node(None, vec![]), node(Some(1), vec![])]),
        node(Some(2), vec![]),
    ]);
    assert_eq!(find_zarr_exec_stats(&deep), Some(&1));
    let root = node(Some(3), vec![node(Some(4), vec![])]);
    assert_eq!(find_zarr_exec_stats(&root), Some(&3));
}

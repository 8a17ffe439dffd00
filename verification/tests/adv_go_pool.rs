use gorustines::parallel_execute;

#[test]
fn test_parallel_execute() {
    let tasks: Vec<Box<dyn Fn() -> i32 + Send + Sync>> = vec![
        Box::new(|| 1),
        Box::new(|| 2),
        Box::new(|| 3),
    ];

    let results = parallel_execute(tasks);
    assert_eq!(results.len(), 3);
    assert!(results.contains(&1));
    assert!(results.contains(&2));
    assert!(results.contains(&3));
}

#[test]
fn parallel_results_follow_task_order() {
    let tasks: Vec<Box<dyn Fn() -> String + Send + Sync>> = (0..100)
        .map(|i| Box::new(move || format!("task {}", i * 3)) as Box<dyn Fn() -> String + Send + Sync>)
        .collect();
    let results = parallel_execute(tasks);
    assert_eq!(results.len(), 100);
    for (i, r) in results.iter().enumerate() {
        assert_eq!(r, &format!("task {}", i * 3));
    }
}

#[test]
fn parallel_execute_of_nothing_is_nothing() {
    let tasks: Vec<fn() -> u8> = Vec::new();
    let results = parallel_execute(tasks);
    assert!(results.is_empty());
}

use lt_engine::scheduler::{Scheduler, Tick};
use lt_engine::schema::{Stage, Workload};

#[test]
fn it_one_stage_2sec_5rps() {
    let workload = Workload {
        stages: vec![
            Stage { duration_sec: 2, rps: 5 },
            Stage { duration_sec: 1, rps: 3 },
        ],
    };
    let mut ticks: Vec<Tick> = Vec::new();
    let mut scheduler = Scheduler::new(&workload);
    while let Some(tick) = scheduler.next() {
        ticks.push(tick)
    }
    assert_eq!(13, ticks.len());
    // First stage: ten ticks, two hundred milliseconds apart, from zero.
    for k in 0..10usize {
        assert_eq!(k as u64, ticks[k].tick_index);
        assert_eq!(0, ticks[k].stage_index);
        assert_eq!(200 * k as u64, ticks[k].planned_at_ms);
        assert_eq!(5, ticks[k].target_rps);
        assert_eq!(k == 0, ticks[k].is_new_stage);
    }
    // Second stage: three ticks from the two-second mark.
    assert!(ticks[10].is_new_stage);
    assert_eq!(1, ticks[10].stage_index);
    assert_eq!(2000, ticks[10].planned_at_ms);
    assert_eq!(2333, ticks[11].planned_at_ms);
    assert_eq!(2666, ticks[12].planned_at_ms);
    assert_eq!(3, ticks[12].target_rps);
}

#[test]
fn it_planned_time_growing() {
    let workload = Workload {
        stages: vec![
            Stage { duration_sec: 2, rps: 5 },
            Stage { duration_sec: 2, rps: 5 },
        ],
    };
    let mut scheduler = Scheduler::new(&workload);
    let delta = 200;
    let mut prev_planned_time = 0;
    let mut i = 0;
    while let Some(tick) = scheduler.next() {
        if i != 0 {
            assert_eq!(delta, tick.planned_at_ms - prev_planned_time);
        }
        prev_planned_time = tick.planned_at_ms;
        i += 1;
    }
    assert_eq!(20, i);
}

#[test]
fn it_total_ticks_is_duration_times_rps() {
    let workload = Workload {
        stages: vec![
            Stage { duration_sec: 10, rps: 100 },
            Stage { duration_sec: 30, rps: 7 },
        ],
    };
    let mut scheduler = Scheduler::new(&workload);
    assert_eq!(10 * 100 + 30 * 7, scheduler.total_ticks);
    assert_eq!(40_000, scheduler.planned_duration_ms);
    assert_eq!(40, scheduler.planned_duration_sec);
    assert_eq!(Some(1000), scheduler.get_stage_max_ticks(0));
    assert_eq!(Some(210), scheduler.get_stage_max_ticks(1));
    assert_eq!(None, scheduler.get_stage_max_ticks(2));
    let mut count = 0u64;
    let mut prev = 0u64;
    while let Some(tick) = scheduler.next() {
        assert!(tick.planned_at_ms >= prev, "planned time went backwards");
        prev = tick.planned_at_ms;
        count += 1;
    }
    assert_eq!(1210, count);
}

#[test]
fn it_first_tick_opens_the_run() {
    let workload = Workload {
        stages: vec![Stage { duration_sec: 10, rps: 3 }],
    };
    let mut scheduler = Scheduler::new(&workload);
    let first = scheduler.next().unwrap();
    assert_eq!(0, first.planned_at_ms);
    assert!(first.is_new_stage);
    let second = scheduler.next().unwrap();
    assert!(!second.is_new_stage);
    assert_eq!(333, second.planned_at_ms);
}

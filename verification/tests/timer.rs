use phos_remoting::timer::{Timer, MEASURE_TOTAL};

#[test]
fn clock_test() {
    let mut timer = Timer::new_null();

    timer.set(MEASURE_TOTAL);
    let mut _sum: u64 = 0;
    for i in 0..10000 {
        _sum += i;
    }
    timer.stop(MEASURE_TOTAL);

    let t = timer.get_time(0, MEASURE_TOTAL);
    assert!(t > 0);

    // round 2
    timer.plus_cnt();

    timer.set(MEASURE_TOTAL);
    let mut _sum: u64 = 0;
    for i in 0..10000 {
        _sum += i;
    }
    timer.stop(MEASURE_TOTAL);
    let t2 = timer.get_time(1, MEASURE_TOTAL);
    assert!(t2 > 0);
    let tt = timer.get_time(0, MEASURE_TOTAL);
    assert_eq!(t, tt);
}

#[test]
fn timed_points_from_given_readings() {
    let mut timer = Timer::new_null();
    timer.set_at(3, 100);
    timer.stop_at(3, 175);
    timer.set_at(4, 7);
    timer.stop_at(4, 9);
    assert_eq!(timer.get_time(0, 3), 75);
    assert_eq!(timer.get_time(0, 4), 2);
    assert_eq!(timer.get_time(0, 5), 0);
    assert!(!timer.plus_cnt());
    timer.set_at(3, 1000);
    timer.stop_at(3, 1001);
    assert_eq!(timer.get_time(1, 3), 1);
    assert_eq!(timer.get_time(0, 3), 75);
    assert_eq!(timer.start_row(0)[3], 100);
    assert_eq!(timer.start_row(1)[3], 1000);
}

use sim_core::ticker::Ticker;

#[test]
fn period_three_pattern() {
    let mut t = Ticker::new(3);
    let fired: Vec<bool> = (0..7).map(|_| t.tick()).collect();
    assert_eq!(fired, vec![true, false, false, true, false, false, true]);
}

#[test]
fn period_one_always_fires() {
    let mut t = Ticker::new(1);
    assert!(t.tick());
    for _ in 0..20 {
        assert!(t.tick());
    }
}

#[test]
fn first_call_fires_regardless_of_period() {
    let mut t = Ticker::new(1000);
    assert!(t.tick());
    assert!(!t.tick());
}

#[test]
fn period_two_pattern() {
    let mut t = Ticker::new(2);
    let fired: Vec<bool> = (0..6).map(|_| t.tick()).collect();
    assert_eq!(fired, vec![true, false, true, false, true, false]);
}

#[test]
fn fires_repeat_with_period() {
    let mut t = Ticker::new(5);
    assert!(t.tick());
    for round in 0..4 {
        for i in 0..5 {
            let fired = t.tick();
            assert_eq!(fired, i == 4, "round {} call {}", round, i);
        }
    }
}

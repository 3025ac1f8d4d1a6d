use gilrs_xinput::{Effect, EffectData, FfMessage, FfMessageType, Rumble, Worker};

fn rumble(delay: u16) -> EffectData {
    EffectData { strong: 40000, weak: 1000, length: 100, delay }
}

#[test]
fn play_once_without_delay() {
    let mut e = Effect::new(rumble(0), 1000);
    assert_eq!(e.repeat, 0);
    assert_eq!(e.play(0, 1000), Some(Rumble::Play { left: 1000, right: 40000 }));
    assert_eq!(e.repeat, 1);
    assert_eq!(e.tick(1000), None);
    assert_eq!(e.tick(1099), None);
    assert_eq!(e.repeat, 1);
    assert_eq!(e.tick(1100), Some(Rumble::Stop));
    assert_eq!(e.repeat, 0);
    assert_eq!(e.tick(5000), None);
}

#[test]
fn play_three_times_with_delay() {
    let mut e = Effect::new(rumble(50), 0);
    assert_eq!(e.play(2, 0), None);
    assert_eq!(e.repeat, 3);
    assert!(e.waiting);
    let play = Rumble::Play { left: 1000, right: 40000 };
    let mut out = Vec::new();
    for t in [10u64, 50, 100, 150, 200, 250, 300, 350, 400, 450, 500] {
        if let Some(c) = e.tick(t) {
            out.push((t, c));
        }
    }
    assert_eq!(
        out,
        vec![
            (50, play),
            (150, Rumble::Stop),
            (200, play),
            (300, Rumble::Stop),
            (350, play),
            (450, Rumble::Stop),
        ]
    );
    assert_eq!(e.repeat, 0);
}

#[test]
fn play_count_saturates() {
    let mut e = Effect::new(rumble(0), 0);
    e.play(u16::MAX, 0);
    assert_eq!(e.repeat, u16::MAX);
}

#[test]
fn stop_leaves_effect_idle() {
    let mut e = Effect::new(rumble(0), 0);
    e.play(3, 0);
    assert_eq!(e.stop(), Some(Rumble::Stop));
    assert_eq!(e.repeat, 0);
    assert_eq!(e.tick(1000), None);
    assert_eq!(e.stop(), None);
}

#[test]
fn stop_before_motor_output_is_a_no_op() {
    let mut e = Effect::new(rumble(50), 0);
    assert_eq!(e.play(1, 0), None);
    assert_eq!(e.stop(), None);
    assert_eq!(e.repeat, 0);
    assert_eq!(e.tick(100), None);
}

#[test]
fn late_passes_still_play_every_repetition() {
    let data = EffectData { strong: 7, weak: 9, length: 3, delay: 5 };
    let mut e = Effect::new(data, 0);
    assert_eq!(e.play(2, 0), None);
    let play = Rumble::Play { left: 9, right: 7 };
    let mut out = Vec::new();
    for t in [10u64, 20, 30, 40, 50, 60, 70, 80] {
        if let Some(c) = e.tick(t) {
            out.push((t, c));
        }
    }
    assert_eq!(
        out,
        vec![
            (10, play),
            (20, Rumble::Stop),
            (30, play),
            (40, Rumble::Stop),
            (50, play),
            (60, Rumble::Stop),
        ]
    );
    assert_eq!(e.repeat, 0);
}

#[test]
fn drop_silences_a_playing_slot() {
    let mut w = Worker::new([true, false, false, false]);
    let create = FfMessage { id: 1, kind: FfMessageType::Create(rumble(0)) };
    assert_eq!(w.handle_message(create, 0), None);
    let play = FfMessage { id: 1, kind: FfMessageType::Play(5) };
    assert_eq!(w.handle_message(play, 0), Some(Rumble::Play { left: 1000, right: 40000 }));
    assert_eq!(w.handle_message(FfMessage { id: 1, kind: FfMessageType::Drop }, 10), None);
    assert_eq!(w.handle_message(FfMessage { id: 1, kind: FfMessageType::Play(1) }, 20), None);
    assert_eq!(w.handle_message(FfMessage { id: 1, kind: FfMessageType::Stop }, 20), None);
    for t in [0u64, 100, 200, 1000] {
        assert!(w.timing_pass(t).is_empty());
    }
}

#[test]
fn timing_pass_tags_commands_with_their_slot() {
    let mut w = Worker::new([true; 4]);
    w.handle_message(FfMessage { id: 2, kind: FfMessageType::Create(rumble(0)) }, 0);
    w.handle_message(FfMessage { id: 3, kind: FfMessageType::Create(rumble(0)) }, 0);
    w.handle_message(FfMessage { id: 2, kind: FfMessageType::Play(0) }, 0);
    w.handle_message(FfMessage { id: 3, kind: FfMessageType::Play(0) }, 50);
    assert!(w.timing_pass(60).is_empty());
    assert_eq!(w.timing_pass(100), vec![(2, Rumble::Stop)]);
    assert_eq!(w.timing_pass(150), vec![(3, Rumble::Stop)]);
}

#[test]
fn create_replaces_an_effect() {
    let mut w = Worker::new([true; 4]);
    w.handle_message(FfMessage { id: 0, kind: FfMessageType::Create(rumble(0)) }, 0);
    w.handle_message(FfMessage { id: 0, kind: FfMessageType::Play(9) }, 0);
    w.handle_message(FfMessage { id: 0, kind: FfMessageType::Create(rumble(0)) }, 10);
    assert!(w.timing_pass(1000).is_empty());
}

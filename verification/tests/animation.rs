use rpg_raid_shop::animation::{Animation, AnimationClip, AnimationMode};
use rpg_raid_shop::time_span::TimeSpan;

fn ms(millis: u64) -> TimeSpan {
    TimeSpan::from_millis(millis)
}

const FRAME_MS: u64 = 100;

#[test]
fn clip_hands_out_its_frames_in_order_then_stops() {
    let mut clip = AnimationClip::new(2, 5);
    assert_eq!(clip.size_hint(), (4, Some(4)));
    assert_eq!(clip.next(), Some(2));
    assert_eq!(clip.next(), Some(3));
    assert_eq!(clip.size_hint(), (2, Some(2)));
    assert_eq!(clip.next(), Some(4));
    assert_eq!(clip.next(), Some(5));
    assert!(clip.is_finished());
    assert_eq!(clip.next(), None);
    assert_eq!(clip.next(), None);
    assert_eq!(clip.size_hint(), (0, Some(0)));
}

#[test]
fn clip_reset_starts_over() {
    let mut clip = AnimationClip::new(0, 1);
    clip.next();
    clip.next();
    assert!(clip.is_finished());
    clip.reset();
    assert!(!clip.is_finished());
    assert_eq!(clip.next(), Some(0));
}

#[test]
fn clip_with_last_before_first_plays_first_once() {
    let mut clip = AnimationClip::new(7, 3);
    assert_eq!(clip.size_hint(), (1, Some(1)));
    assert_eq!(clip.next(), Some(7));
    assert_eq!(clip.next(), None);
}

#[test]
fn animation_starts_on_first_frame_and_first_tick_gives_second() {
    let mut anim = Animation::repeating(0, 3, ms(FRAME_MS));
    assert_eq!(anim.frame(), 0);
    assert_eq!(anim.tick(ms(FRAME_MS)), Some(1));
    assert_eq!(anim.frame(), 1);
}

#[test]
fn animation_does_not_change_before_timer_fires() {
    let mut anim = Animation::repeating(0, 3, ms(FRAME_MS));
    assert_eq!(anim.tick(ms(40)), None);
    assert_eq!(anim.tick(ms(40)), None);
    assert_eq!(anim.frame(), 0);
    assert_eq!(anim.tick(ms(40)), Some(1));
}

#[test]
fn repeating_animation_loops_back_to_first_frame() {
    let mut anim = Animation::repeating(4, 6, ms(FRAME_MS));
    let frames: Vec<Option<usize>> = (0..7).map(|_| anim.tick(ms(FRAME_MS))).collect();
    assert_eq!(
        frames,
        vec![Some(5), Some(6), Some(4), Some(5), Some(6), Some(4), Some(5)]
    );
    assert!(!anim.is_finished());
}

#[test]
fn once_animation_holds_last_frame_then_finishes() {
    let mut anim = Animation::once(0, 2, ms(FRAME_MS));
    assert_eq!(anim.tick(ms(FRAME_MS)), Some(1));
    assert_eq!(anim.tick(ms(FRAME_MS)), Some(2));
    assert!(!anim.is_finished());
    assert_eq!(anim.tick(ms(FRAME_MS)), None);
    assert!(anim.is_finished());
    assert_eq!(anim.frame(), 2);
    assert_eq!(anim.tick(ms(FRAME_MS)), None);
    assert!(anim.is_finished());
    assert_eq!(anim.frame(), 2);
}

#[test]
fn advance_moves_without_the_timer() {
    let mut anim = Animation::new(10, 11, ms(FRAME_MS), AnimationMode::Repeating);
    assert_eq!(anim.advance(), Some(11));
    assert_eq!(anim.advance(), Some(10));
}

#[test]
fn animation_from_columns_covers_the_strip() {
    let mut anim = Animation::from_columns(3, ms(FRAME_MS), AnimationMode::Repeating);
    assert_eq!(anim.frame(), 0);
    assert_eq!(anim.advance(), Some(1));
    assert_eq!(anim.advance(), Some(2));
    assert_eq!(anim.advance(), Some(0));
}

#[test]
fn animation_from_empty_strip_shows_frame_zero() {
    let mut anim = Animation::from_columns(0, ms(FRAME_MS), AnimationMode::Repeating);
    assert_eq!(anim.frame(), 0);
    assert_eq!(anim.advance(), None);
    assert_eq!(anim.frame(), 0);
}

#[test]
fn cloned_animation_keeps_its_timer() {
    let mut anim = Animation::repeating(0, 3, ms(FRAME_MS));
    anim.tick(ms(60));
    let mut copy = anim.clone();
    assert_eq!(copy.frame(), 0);
    assert_eq!(copy.tick(ms(60)), Some(1));
    assert_eq!(anim.tick(ms(60)), Some(1));
}

#[test]
fn half_second_frames_step_once_per_half_second() {
    let mut anim = Animation::repeating(0, 2, ms(500));
    assert_eq!(anim.frame(), 0);
    let frames: Vec<Option<usize>> = (0..4).map(|_| anim.tick(ms(500))).collect();
    assert_eq!(frames, vec![Some(1), Some(2), Some(0), Some(1)]);
    assert_eq!(anim.frame(), 1);
    assert!(!anim.is_finished());
}

#[test]
fn once_animation_of_two_frames_finishes() {
    let mut anim = Animation::once(0, 1, ms(500));
    assert_eq!(anim.tick(ms(500)), Some(1));
    assert!(!anim.is_finished());
    assert_eq!(anim.tick(ms(500)), None);
    assert!(anim.is_finished());
    assert_eq!(anim.frame(), 1);
    for _ in 0..3 {
        assert_eq!(anim.tick(ms(500)), None);
        assert!(anim.is_finished());
        assert_eq!(anim.frame(), 1);
    }
}

#[test]
fn single_frame_clip_never_reports_a_change() {
    let mut anim = Animation::repeating(3, 3, ms(500));
    assert_eq!(anim.tick(ms(500)), None);
    assert_eq!(anim.frame(), 3);
    assert_eq!(anim.tick(ms(1500)), None);
    assert_eq!(anim.frame(), 3);
}

#[test]
fn long_tick_moves_one_frame_and_keeps_the_remainder() {
    let mut anim = Animation::repeating(0, 5, ms(100));
    assert_eq!(anim.tick(ms(250)), Some(1));
    assert_eq!(anim.tick(ms(40)), None);
    assert_eq!(anim.tick(ms(10)), Some(2));
}

#[test]
fn zero_frame_time_moves_every_tick() {
    let mut anim = Animation::repeating(0, 2, ms(0));
    assert_eq!(anim.tick(ms(0)), Some(1));
    assert_eq!(anim.tick(ms(0)), Some(2));
}

#[test]
fn time_span_parts() {
    let t = TimeSpan::from_millis(2_345);
    assert_eq!(t.secs(), 2);
    assert_eq!(t.subsec_nanos(), 345_000_000);
    let u = TimeSpan::new(7, 999_999_999);
    assert_eq!(u.secs(), 7);
    assert_eq!(u.subsec_nanos(), 999_999_999);
}

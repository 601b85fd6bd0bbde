use winittray::SoundDataIter;

#[test]
fn cursor_yields_each_sample_once_in_order() {
    let data: Vec<u32> = vec![0.1f32.to_bits(), 0.2f32.to_bits(), 0.3f32.to_bits()];
    let mut c = SoundDataIter::new(&data);
    assert!(!c.is_done());
    assert_eq!(f32::from_bits(c.next_value()), 0.1);
    assert!(!c.is_done());
    assert_eq!(f32::from_bits(c.next_value()), 0.2);
    assert!(!c.is_done());
    assert_eq!(f32::from_bits(c.next_value()), 0.3);
    assert!(c.is_done());
}

#[test]
fn cursor_gives_silence_past_the_end() {
    let data: Vec<u32> = vec![(-0.5f32).to_bits()];
    let mut c = SoundDataIter::new(&data);
    assert_eq!(f32::from_bits(c.next_value()), -0.5);
    assert!(c.is_done());
    assert_eq!(f32::from_bits(c.next_value()), 0.0);
    assert_eq!(f32::from_bits(c.next_value()), 0.0);
    assert!(c.is_done());
}

#[test]
fn empty_clip_is_done_at_once() {
    let data: Vec<u32> = Vec::new();
    let mut c = SoundDataIter::new(&data);
    assert!(c.is_done());
    assert_eq!(c.next_value(), 0);
}

#[test]
fn fill_reads_one_sample_per_slot() {
    let data: Vec<u32> = vec![1, 2, 3, 4, 5];
    let mut c = SoundDataIter::new(&data);
    let mut out = [9u32; 2];
    assert!(!c.fill(&mut out));
    assert_eq!(out, [1, 2]);
    assert!(!c.fill(&mut out));
    assert_eq!(out, [3, 4]);
    assert!(c.fill(&mut out));
    assert_eq!(out, [5, 0]);
    assert!(c.fill(&mut out));
    assert_eq!(out, [0, 0]);
}

#[test]
fn fill_reports_completion_on_exact_end() {
    let data: Vec<u32> = vec![7, 8];
    let mut c = SoundDataIter::new(&data);
    let mut out = [0u32; 2];
    assert!(c.fill(&mut out));
    assert_eq!(out, [7, 8]);
    let mut empty: [u32; 0] = [];
    assert!(c.fill(&mut empty));
}

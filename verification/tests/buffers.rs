use spectra::audio::{keep_newest, AudioBuffer};
use spectra::dsp::band_bins;
use spectra::history::Spectrogram;
use spectra::matrix::free_columns;

#[test]
fn snapshot_pads_in_front() {
    let mut b = AudioBuffer::new(8, 0i32);
    b.push(&[1, 2, 3]);
    assert_eq!(b.snapshot(5), vec![0, 0, 1, 2, 3]);
    assert_eq!(b.snapshot(2), vec![2, 3]);
    assert_eq!(b.snapshot(0), Vec::<i32>::new());
}

#[test]
fn push_keeps_newest_up_to_capacity() {
    let mut b = AudioBuffer::new(4, 0u8);
    b.push(&[1, 2, 3]);
    b.push(&[4, 5, 6]);
    assert_eq!(b.snapshot(4), vec![3, 4, 5, 6]);
    assert_eq!(b.snapshot(6), vec![0, 0, 3, 4, 5, 6]);
    b.push(&[7, 8, 9, 10, 11]);
    assert_eq!(b.snapshot(4), vec![8, 9, 10, 11]);
}

#[test]
fn empty_buffer_is_silence() {
    let b = AudioBuffer::new(16, 0.0f32);
    assert_eq!(b.snapshot(3), vec![0.0, 0.0, 0.0]);
}

#[test]
fn snapshot_reads_back_last_push() {
    let mut b = AudioBuffer::new(1024, 0.0f32);
    b.push(&[0.5; 100]);
    let fresh: Vec<f32> = (0..300).map(|i| i as f32).collect();
    b.push(&fresh);
    assert_eq!(b.snapshot(256), fresh[44..].to_vec());
}

#[test]
fn keep_newest_drops_oldest() {
    let mut v = vec![1, 2, 3, 4, 5];
    keep_newest(&mut v, 3);
    assert_eq!(v, vec![3, 4, 5]);
    keep_newest(&mut v, 10);
    assert_eq!(v, vec![3, 4, 5]);
    keep_newest(&mut v, 0);
    assert!(v.is_empty());
}

#[test]
fn spectrogram_scrolls_and_resets() {
    let mut h = Spectrogram::new();
    h.push_column(3, 'a');
    h.push_column(3, 'b');
    h.push_column(3, 'c');
    h.push_column(3, 'd');
    assert_eq!(h.columns(), &['b', 'c', 'd']);
    h.push_column(2, 'e');
    assert_eq!(h.columns(), &['e']);
    h.push_column(2, 'f');
    h.push_column(2, 'g');
    assert_eq!(h.columns(), &['f', 'g']);
}

#[test]
fn free_columns_skip_occupied() {
    assert_eq!(free_columns(6, &[1, 4, 4, 9]), vec![0, 2, 3, 5]);
    assert_eq!(free_columns(0, &[]), Vec::<u16>::new());
    assert_eq!(free_columns(3, &[]), vec![0, 1, 2]);
}

#[test]
fn band_bins_clamp() {
    assert_eq!(band_bins(0, 0, 1024), (1, 2));
    assert_eq!(band_bins(5, 9, 1024), (5, 9));
    assert_eq!(band_bins(7, 7, 1024), (7, 8));
    assert_eq!(band_bins(1000, 2000, 1024), (1000, 1024));
}

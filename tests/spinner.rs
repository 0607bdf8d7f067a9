use rget::Spinner;

#[test]
fn default_frames_cycle() {
    let s = Spinner::new(None);
    let frames: Vec<char> = (0..6).map(|i| s.frame(i).unwrap()).collect();
    assert_eq!(frames, vec!['-', '\\', '|', '/', '-', '\\']);
}

#[test]
fn given_frames_and_no_frames() {
    let s = Spinner::new(Some(vec!['a', 'b']));
    assert_eq!(s.frame(3), Some('b'));
    assert_eq!(Spinner::new(Some(vec![])).frame(0), None);
}

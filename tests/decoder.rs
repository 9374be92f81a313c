use pty_proxy::decode::InputDecoder;

#[test]
fn split_character_is_held_back_until_complete() {
    let text = "añ€😀z".as_bytes().to_vec();
    let mut d = InputDecoder::new();
    let mut out = Vec::new();
    for piece in [&text[..2], &text[2..4], &text[4..7], &text[7..9], &text[9..]] {
        let ready = d.push(piece);
        assert!(String::from_utf8(ready.clone()).is_ok());
        out.extend(ready);
    }
    out.extend(d.finish());
    assert_eq!(String::from_utf8(out).unwrap(), "añ€😀z");
}

#[test]
fn ascii_passes_straight_through() {
    let mut d = InputDecoder::new();
    assert_eq!(d.push(b"dir\r\n"), b"dir\r\n".to_vec());
    assert!(d.finish().is_empty());
}

#[test]
fn unfinished_tail_is_handed_out_at_the_end() {
    let mut d = InputDecoder::new();
    assert_eq!(d.push(&[b'a', 0xE2, 0x82]), vec![b'a']);
    assert_eq!(d.finish(), vec![0xE2, 0x82]);
}

use bouclier_bleu::reader::{sanitize, BpfReader};

#[test]
fn test_bpf_reader_u32_success() {
    let data = 42u32.to_ne_bytes();
    let mut reader = BpfReader::new(&data);

    assert_eq!(reader.read_u32(), Ok(42));
    assert_eq!(reader.offset(), 4);
}

#[test]
fn test_bpf_reader_u32_underrun() {
    let data = [0u8; 3];
    let mut reader = BpfReader::new(&data);

    assert!(reader.read_u32().is_err());
}

#[test]
fn test_bpf_reader_string_success() {
    let mut data = b"secret.txt\0".to_vec();
    data.extend_from_slice(&[0u8; 5]);

    let mut reader = BpfReader::new(&data);
    let result = reader.read_string(15);

    assert_eq!(result, Ok("secret.txt".to_string()));
    assert_eq!(reader.offset(), 15);
}

#[test]
fn test_bpf_reader_string_sanitization() {
    let payload = b"malware\x1B[31m.sh\0";
    let mut reader = BpfReader::new(payload);

    let result = reader.read_string(payload.len());
    assert_eq!(result.unwrap(), "malware?[31m.sh");
}

#[test]
fn test_bpf_reader_string_underrun() {
    let data = b"short\0";
    let mut reader = BpfReader::new(data);

    assert!(reader.read_string(10).is_err());
}

#[test]
fn fields_follow_one_another() {
    let mut data = 7u32.to_ne_bytes().to_vec();
    data.extend_from_slice(b"ab\0zz");
    data.extend_from_slice(b"full!");
    let mut reader = BpfReader::new(&data);
    assert_eq!(reader.read_u32(), Ok(7));
    assert_eq!(reader.read_string(5), Ok("ab".to_string()));
    assert_eq!(reader.read_string(5), Ok("full!".to_string()));
    assert_eq!(reader.read_string(0), Ok(String::new()));
    assert_eq!(
        reader.read_u32(),
        Err("Buffer underrun: Failed to isolate u32 block.")
    );
    assert_eq!(
        reader.read_string(1),
        Err("Buffer underrun: String boundary exceeds payload size.")
    );
    assert_eq!(reader.offset(), 14);
    assert!(reader.into_mangled().is_empty());
}

#[test]
fn unprintable_characters_are_replaced_one_by_one() {
    assert_eq!(sanitize("a b~"), ("a b~".to_string(), 0));
    let (once, _) = sanitize("\u{1b}[0mé");
    assert_eq!(sanitize(&once), (once.clone(), 0));
}

#[test]
fn what_is_counted_are_the_bytes_that_a_string_loses() {
    // One byte for one byte: nothing is lost.
    assert_eq!(sanitize("\u{1b}[31m\n\u{7f}"), ("?[31m??".to_string(), 0));
    assert_eq!(sanitize("é\n\u{7f}x"), ("???x".to_string(), 1));
    assert_eq!(sanitize("€"), ("?".to_string(), 2));
    assert_eq!(sanitize("a😀é"), ("a??".to_string(), 4));
    let mut reader = BpfReader::new(b"malware\x1b[31m.sh\0");
    assert_eq!(reader.read_string(16), Ok("malware?[31m.sh".to_string()));
    assert!(reader.into_mangled().is_empty());
}

#[test]
fn invalid_bytes_become_question_marks() {
    let mut reader = BpfReader::new(b"a\xffb\xc3\0");
    assert_eq!(reader.read_string(5), Ok("a?b?".to_string()));
    // Each of them first became a character of three bytes.
    assert_eq!(reader.into_mangled(), vec![4]);
}

#[test]
fn text_is_no_longer_than_its_field() {
    for bytes in [&b"\xff\xfe\xc3\xe2\x82"[..], b"\xf0\x9f\x98\x80\xf0", "ééé".as_bytes(), b"ab\0\xff\xff"] {
        let held = bytes.iter().position(|b| *b == 0).unwrap_or(bytes.len());
        let text = BpfReader::new(bytes).read_string(bytes.len()).unwrap();
        assert!(text.len() <= held);
    }
}

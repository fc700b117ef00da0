use browse::gleam_guest::{first_found, require_exports, string_reply};
use browse::gleam_guest::{copy_utf8, read_guest_string, read_len_prefixed, read_tagged_string};

fn mem_with(at: usize, bytes: &[u8], size: usize) -> Vec<u8> {
    let mut m = vec![0u8; size];
    m[at..at + bytes.len()].copy_from_slice(bytes);
    m
}

#[test]
fn copy_reports_each_failure() {
    let mem = b"hello world".to_vec();
    assert_eq!(copy_utf8(&mem, 6, 5).unwrap(), "world");
    assert_eq!(copy_utf8(&mem, 0, -1).unwrap_err(), "negative string length -1");
    assert_eq!(copy_utf8(&mem, -3, 1).unwrap_err(), "negative string data ptr -3");
    assert_eq!(copy_utf8(&mem, 8, 5).unwrap_err(), "string bytes [8..13) out of memory");
    let bad = vec![0xffu8, 0xfe];
    assert!(copy_utf8(&bad, 0, 2).unwrap_err().starts_with("guest string utf8: "));
}

#[test]
fn len_prefixed_layout() {
    let mem = mem_with(4, &[3, 0, 0, 0, b'a', b'b', b'c'], 16);
    assert_eq!(read_len_prefixed(&mem, 4).unwrap(), "abc");
    assert_eq!(read_len_prefixed(&mem, 14).unwrap_err(), "len prefix OOB");
    let huge = mem_with(4, &[0x41, 0x42, 0x0f, 0x00], 16);
    assert_eq!(read_len_prefixed(&huge, 4).unwrap_err(), "len prefix too large");
    let short = mem_with(4, &[9, 0, 0, 0], 10);
    assert_eq!(read_len_prefixed(&short, 4).unwrap_err(), "len prefix bytes OOB");
}

#[test]
fn tagged_layout() {
    let mem = mem_with(8, &[1, 0, 0, 0, 2, 0, 0, 0, b'h', b'i'], 32);
    assert_eq!(read_tagged_string(&mem, 8).unwrap(), "hi");
    let wrong = mem_with(8, &[7, 0, 0, 0, 2, 0, 0, 0], 32);
    assert_eq!(read_tagged_string(&wrong, 8).unwrap_err(), "not a string tag (7)");
    assert_eq!(read_tagged_string(&mem, 30).unwrap_err(), "tagged header OOB");
}

#[test]
fn guest_string_paths() {
    let mem = b"..hey".to_vec();
    assert_eq!(read_guest_string(0, None, Some(&mem)).unwrap(), "");
    assert_eq!(read_guest_string(-5, None, None).unwrap(), "");
    assert_eq!(read_guest_string(7, Some((Ok(3), Ok(2))), Some(&mem)).unwrap(), "hey");
    assert_eq!(
        read_guest_string(7, Some((Err("trap".into()), Ok(2))), Some(&mem)).unwrap_err(),
        "string_len: trap"
    );
    assert_eq!(
        read_guest_string(7, Some((Ok(3), Err("boom".into()))), Some(&mem)).unwrap_err(),
        "string_data: boom"
    );
    assert!(read_guest_string(7, None, None).unwrap_err().contains("exports no `memory`"));
    // The length-prefixed reading of this tagged string takes the tag as a
    // length of 1 and the lone byte 0xc3 that follows, which is not UTF-8.
    let mut tagged = vec![1u8, 0, 0, 0, 0xc3, 0, 0, 0];
    tagged.extend(std::iter::repeat(b'a').take(0xc3));
    let mem = mem_with(4, &tagged, 4 + tagged.len());
    assert_eq!(read_guest_string(4, None, Some(&mem)).unwrap(), "a".repeat(0xc3));
    // Here the length-prefixed reading succeeds first.
    let both = mem_with(4, &[1, 0, 0, 0, 2, 0, 0, 0, b'o', b'k'], 16);
    assert_eq!(read_guest_string(4, None, Some(&both)).unwrap(), "\u{2}");
    let junk = vec![0xffu8; 16];
    assert_eq!(
        read_guest_string(3, None, Some(&junk)).unwrap_err(),
        "cannot decode Gleam String at ptr 3: need gleam_string_utf8_len/ptr (or __gleam_string_len/data) exports, or a length-prefixed UTF-8 layout"
    );
}

#[test]
fn export_lookups_pick_and_report() {
    assert_eq!(first_found(vec![None, Some(2), Some(3)]), Some(2));
    assert_eq!(first_found::<i32>(vec![None, None]), None);
    let missing: Result<(), String> = Err("not found".to_string());
    assert_eq!(
        require_exports(Ok(1), Ok(2), missing.clone(), Err::<(), String>("gone".into())).unwrap_err(),
        "export browse__view_len: not found"
    );
    assert_eq!(require_exports(Ok(1), Ok(2), Ok(3), Ok(4)).unwrap(), (1, 2, 3, 4));
    assert_eq!(string_reply("browse__label: ", Err("trap".into())).unwrap_err(), "browse__label: trap");
    assert_eq!(string_reply("x: ", Ok(0)).unwrap(), None);
    assert_eq!(string_reply("x: ", Ok(40)).unwrap(), Some(40));
}

use browse::view_api::Op;
use browse::gleam_guest::Session;

/// A small guest in text form. It hands out string addresses but exports no
/// linear memory.
const GUEST: &str = r#"
(module
  (func (export "browse__init") (result i64) (i64.const 0))
  (func (export "browse__update") (param i64 i64) (result i64)
    (if (result i64) (i64.eq (local.get 1) (i64.const 2))
      (then (i64.const 1))
      (else (local.get 0))))
  (func (export "browse__view_len") (param i64) (result i64)
    (i64.add (i64.const 3) (local.get 0)))
  (func (export "browse__view_at") (param i64 i64) (result i64)
    (i64.add (i64.mul (local.get 1) (i64.const 16)) (i64.const 1)))
  (func (export "browse__view_text") (param i64 i64) (result i32)
    (if (result i32) (i64.eq (local.get 1) (i64.const 0))
      (then (i32.const 64))
      (else (i32.const 0))))
  (func (export "browse__label") (param i32) (result i32)
    (if (result i32) (i32.eq (local.get 0) (i32.const 2))
      (then (i32.const 96))
      (else (i32.const 0))))
)
"#;

const NO_MEMORY: &str =
    "browse__view_text returned a String ptr but guest exports no `memory` (rebuild with Gleam Wasm strings)";

const SCALAR_ONLY: &str = r#"
(module
  (func (export "browse__init") (result i64) (i64.const 7))
  (func (export "browse__update") (param i64 i64) (result i64) (local.get 1))
  (func (export "browse__view_len") (param i64) (result i64) (i64.const 0))
  (func (export "browse__view_at") (param i64 i64) (result i64) (unreachable))
)
"#;

#[test]
fn guest_scalars_and_strings() {
    let mut s = Session::load(GUEST.as_bytes()).expect("load");
    assert!(s.has_view_text());
    assert!(s.has_label());
    assert_eq!(s.init().unwrap(), 0);
    assert_eq!(s.update(0, 2).unwrap(), 1);
    assert_eq!(s.update(0, 5).unwrap(), 0);
    assert_eq!(s.view_len(1).unwrap(), 4);
    assert_eq!(s.view_at(0, 2).unwrap(), 33);
    assert_eq!(s.view_text(0, 1).unwrap(), Some(String::new()));
    assert_eq!(s.view_text(0, 0).unwrap_err(), NO_MEMORY);
    assert_eq!(s.label(3).unwrap(), Some(String::new()));
    assert_eq!(s.label(2).unwrap_err(), NO_MEMORY);
}

#[test]
fn guest_without_strings_and_traps() {
    let mut s = Session::load(SCALAR_ONLY.as_bytes()).expect("load");
    assert!(!s.has_view_text());
    assert_eq!(s.view_text(0, 0).unwrap(), None);
    assert_eq!(s.init().unwrap(), 7);
    assert!(s.view_at(0, 0).unwrap_err().starts_with("browse__view_at: "));
}

#[test]
fn guest_load_failures_name_the_step() {
    let err = Session::load(b"not a module").err().expect("parse error");
    assert!(err.starts_with("parse browse.wasm: "), "{err}");
    let err = Session::load(b"(module (func (export \"browse__init\") (result i64) (i64.const 0)))")
        .err()
        .expect("missing export");
    assert!(err.starts_with("export browse__update: "), "{err}");
    let err = Session::load(b"(module (import \"env\" \"f\" (func)))").err().expect("needs imports");
    assert!(err.starts_with("instantiate browse.wasm: "), "{err}");
}

#[test]
fn a_guest_that_never_returns_runs_out_of_fuel() {
    let looping = r#"
(module
  (func (export "browse__init") (result i64) (i64.const 0))
  (func (export "browse__update") (param i64 i64) (result i64) (local.get 0))
  (func (export "browse__view_len") (param i64) (result i64)
    (loop $again (br $again))
    (i64.const 0))
  (func (export "browse__view_at") (param i64 i64) (result i64) (i64.const 0))
)
"#;
    let mut s = Session::load(looping.as_bytes()).expect("load");
    assert!(s.view_len(0).unwrap_err().starts_with("browse__view_len: "));
    assert_eq!(s.init().unwrap(), 0);
    let looping_start = r#"(module (func $spin (loop $again (br $again))) (start $spin))"#;
    let err = Session::load(looping_start.as_bytes()).err().expect("start runs out of fuel");
    assert!(err.starts_with("instantiate browse.wasm: "), "{err}");
}

#[test]
fn reading_a_view_decodes_each_op() {
    let mut s = Session::load(SCALAR_ONLY_VIEW.as_bytes()).expect("load");
    assert_eq!(s.read_view(0).unwrap(), vec![Op::Meta, Op::Title("Browse".to_string())]);
}

const SCALAR_ONLY_VIEW: &str = r#"
(module
  (func (export "browse__init") (result i64) (i64.const 0))
  (func (export "browse__update") (param i64 i64) (result i64) (local.get 0))
  (func (export "browse__view_len") (param i64) (result i64) (i64.const 2))
  (func (export "browse__view_at") (param i64 i64) (result i64)
    (i64.mul (local.get 1) (i64.const 17)))
)
"#;

const EMPTY_TEXT_VIEW: &str = r#"
(module
  (func (export "browse__init") (result i64) (i64.const 0))
  (func (export "browse__update") (param i64 i64) (result i64) (local.get 0))
  (func (export "browse__view_len") (param i64) (result i64) (local.get 0))
  (func (export "browse__view_at") (param i64 i64) (result i64)
    (if (result i64) (i64.eq (local.get 1) (i64.const 2))
      (then (unreachable))
      (else (i64.add (i64.mul (local.get 1) (i64.const 16)) (i64.const 1)))))
  (func (export "browse__view_text") (param i64 i64) (result i32) (i32.const 0))
)
"#;

#[test]
fn reading_a_view_with_guest_text() {
    let mut s = Session::load(EMPTY_TEXT_VIEW.as_bytes()).expect("load");
    // A null text pointer leaves the decoded op's own (empty) text.
    assert_eq!(s.read_view(2).unwrap(), vec![Op::Title(String::new()), Op::Title(String::new())]);
    // A negative length reads as no ops.
    assert_eq!(s.read_view(-4).unwrap(), Vec::<Op>::new());
    // The third op traps: the read stops with that call's error.
    assert!(s.read_view(3).unwrap_err().starts_with("browse__view_at: "));
}

#[test]
fn reading_a_view_stops_at_the_first_text_error() {
    let mut s = Session::load(GUEST.as_bytes()).expect("load");
    // Op 0 has a text pointer, but the guest has no memory to read it from.
    assert_eq!(s.read_view(0).unwrap_err(), NO_MEMORY);
}

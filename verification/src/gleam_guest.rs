//! Reading Gleam `String`s out of the guest's linear memory.
//!
//! The guest hands back a pointer to a managed string. When it exports the
//! runtime's length/data helpers, the host asks them for the UTF-8 span;
//! otherwise two little-endian layouts are tried in turn: `[u32 len][utf8…]`
//! and the tagged `[u32 tag=1][u32 len][utf8…]`.

use vstd::prelude::*;
use vstd::slice::{slice_subrange, slice_to_vec};
use vstd::string::*;
use vstd::utf8::*;

use crate::text::{
    decimal, decimal_i64, decimal_u64, has_prefix, owned, signed_decimal, string_from_utf8,
};
use crate::view_api::{decodes_to, legacy_text, trem, Op};
use wasmtime::{Config, Engine, Instance, Memory, Module, Store, TypedFunc, WasmParams, WasmResults};

verus! {

/// Guest strings longer than this are taken for random memory.
pub const MAX_GUEST_STRING: u32 = 1_000_000;

/// The little-endian `u32` at byte `p` of `mem`.
pub open spec fn le_u32(mem: Seq<u8>, p: int) -> int {
    mem[p] + 256 * mem[p + 1] + 65536 * mem[p + 2] + 16777216 * mem[p + 3]
}

fn read_u32_le(mem: &[u8], p: usize) -> (r: u32)
    requires
        p + 4 <= mem@.len(),
    ensures
        r == le_u32(mem@, p as int),
{
    let b0 = mem[p] as u32;
    let b1 = mem[p + 1] as u32;
    let b2 = mem[p + 2] as u32;
    let b3 = mem[p + 3] as u32;
    b0 + 256 * b1 + 65536 * b2 + 16777216 * b3
}

/// `r` is what decoding `bytes` gives: the string with those bytes when they
/// are valid UTF-8, else an error whose message starts with `prefix`.
pub open spec fn utf8_outcome(r: Result<String, String>, bytes: Seq<u8>, prefix: Seq<char>) -> bool {
    match r {
        Ok(s) => valid_utf8(bytes) && encode_utf8(s@) == bytes,
        Err(m) => !valid_utf8(bytes) && has_prefix(m@, prefix),
    }
}

/// `r` is what reading the byte span `span` of `mem` gives, or the error
/// message that the span check produced.
pub open spec fn span_outcome(
    r: Result<String, String>,
    mem: Seq<u8>,
    span: Result<(int, int), Seq<char>>,
    prefix: Seq<char>,
) -> bool {
    match span {
        Ok((start, end)) => utf8_outcome(r, mem.subrange(start, end), prefix),
        Err(m) => (r matches Err(e) && e@ == m),
    }
}

/// The span decodes: it passed its checks and holds valid UTF-8.
pub open spec fn span_decodes(mem: Seq<u8>, span: Result<(int, int), Seq<char>>) -> bool {
    match span {
        Ok((start, end)) => valid_utf8(mem.subrange(start, end)),
        Err(_) => false,
    }
}

/// The span `[data_ptr, data_ptr + len)` the string helpers report, or why
/// it cannot be read.
pub open spec fn helper_span(mem_len: nat, data_ptr: int, len: int) -> Result<(int, int), Seq<char>> {
    if len < 0 {
        Err("negative string length "@ + signed_decimal(len))
    } else if data_ptr < 0 {
        Err("negative string data ptr "@ + signed_decimal(data_ptr))
    } else if data_ptr + len > usize::MAX {
        Err("string span overflow"@)
    } else if data_ptr + len > mem_len {
        Err(
            "string bytes ["@ + decimal(data_ptr as nat) + ".."@ + decimal((data_ptr + len) as nat)
                + ") out of memory"@,
        )
    } else {
        Ok((data_ptr, data_ptr + len))
    }
}

/// An error message followed by the decoder's own text.
fn with_detail(prefix: &str, detail: &str) -> (r: String)
    ensures
        r@ == prefix@ + detail@,
{
    let mut s = owned(prefix);
    s.append(detail);
    s
}

/// Decode `mem[start..end]` as UTF-8; an error message starts with `prefix`.
fn decode_span(mem: &[u8], start: usize, end: usize, prefix: &str) -> (r: Result<String, String>)
    requires
        start <= end <= mem@.len(),
    ensures
        utf8_outcome(r, mem@.subrange(start as int, end as int), prefix@),
{
    let bytes = slice_to_vec(slice_subrange(mem, start, end));
    match string_from_utf8(bytes) {
        Ok(s) => Ok(s),
        Err(e) => {
            let m = with_detail(prefix, e.to_string().as_str());
            assert(m@.subrange(0, prefix@.len() as int) =~= prefix@);
            Err(m)
        },
    }
}

/// Copy the UTF-8 span the string helpers reported out of guest memory.
pub fn copy_utf8(mem: &[u8], data_ptr: i32, len: i32) -> (r: Result<String, String>)
    ensures
        span_outcome(
            r,
            mem@,
            helper_span(mem@.len(), data_ptr as int, len as int),
            "guest string utf8: "@,
        ),
{
    if len < 0 {
        return Err(with_detail("negative string length ", decimal_i64(len as i64).as_str()));
    }
    if data_ptr < 0 {
        return Err(with_detail("negative string data ptr ", decimal_i64(data_ptr as i64).as_str()));
    }
    let start = data_ptr as usize;
    let end = match start.checked_add(len as usize) {
        Some(e) => e,
        None => {
            return Err(owned("string span overflow"));
        },
    };
    if end > mem.len() {
        let mut m = with_detail("string bytes [", decimal_u64(start as u64).as_str());
        m.append("..");
        m.append(decimal_u64(end as u64).as_str());
        m.append(") out of memory");
        return Err(m);
    }
    decode_span(mem, start, end, "guest string utf8: ")
}

/// The span of a length-prefixed string at `p`, or why it cannot be read.
pub open spec fn len_prefixed_span(mem: Seq<u8>, p: int) -> Result<(int, int), Seq<char>> {
    if p + 4 > mem.len() {
        Err("len prefix OOB"@)
    } else if le_u32(mem, p) > MAX_GUEST_STRING {
        Err("len prefix too large"@)
    } else if p + 4 + le_u32(mem, p) > usize::MAX {
        Err("len prefix span overflow"@)
    } else if p + 4 + le_u32(mem, p) > mem.len() {
        Err("len prefix bytes OOB"@)
    } else {
        Ok((p + 4, p + 4 + le_u32(mem, p)))
    }
}

/// Layout 1: `[u32 len][utf8…]` at `ptr`.
pub fn read_len_prefixed(mem: &[u8], ptr: i32) -> (r: Result<String, String>)
    requires
        ptr > 0,
    ensures
        span_outcome(r, mem@, len_prefixed_span(mem@, ptr as int), "len-prefixed utf8: "@),
{
    let p = ptr as usize;
    if p + 4 > mem.len() {
        return Err(owned("len prefix OOB"));
    }
    let len = read_u32_le(mem, p);
    if len > MAX_GUEST_STRING {
        return Err(owned("len prefix too large"));
    }
    let start = p + 4;
    let end = match start.checked_add(len as usize) {
        Some(e) => e,
        None => {
            return Err(owned("len prefix span overflow"));
        },
    };
    if end > mem.len() {
        return Err(owned("len prefix bytes OOB"));
    }
    decode_span(mem, start, end, "len-prefixed utf8: ")
}

/// The span of a tagged string at `p`, or why it cannot be read.
pub open spec fn tagged_span(mem: Seq<u8>, p: int) -> Result<(int, int), Seq<char>> {
    if p + 8 > mem.len() {
        Err("tagged header OOB"@)
    } else if le_u32(mem, p) != 1 {
        Err("not a string tag ("@ + decimal(le_u32(mem, p) as nat) + ")"@)
    } else if le_u32(mem, p + 4) > MAX_GUEST_STRING {
        Err("tagged string too large"@)
    } else if p + 8 + le_u32(mem, p + 4) > usize::MAX {
        Err("tagged span overflow"@)
    } else if p + 8 + le_u32(mem, p + 4) > mem.len() {
        Err("tagged bytes OOB"@)
    } else {
        Ok((p + 8, p + 8 + le_u32(mem, p + 4)))
    }
}

/// Layout 2: `[u32 tag=1][u32 len][utf8…]` at `ptr`.
pub fn read_tagged_string(mem: &[u8], ptr: i32) -> (r: Result<String, String>)
    requires
        ptr > 0,
    ensures
        span_outcome(r, mem@, tagged_span(mem@, ptr as int), "tagged utf8: "@),
{
    let p = ptr as usize;
    if p + 8 > mem.len() {
        return Err(owned("tagged header OOB"));
    }
    let tag = read_u32_le(mem, p);
    let len = read_u32_le(mem, p + 4);
    if tag != 1 {
        let mut m = with_detail("not a string tag (", decimal_u64(tag as u64).as_str());
        m.append(")");
        return Err(m);
    }
    if len > MAX_GUEST_STRING {
        return Err(owned("tagged string too large"));
    }
    let start = p + 8;
    let end = match start.checked_add(len as usize) {
        Some(e) => e,
        None => {
            return Err(owned("tagged span overflow"));
        },
    };
    if end > mem.len() {
        return Err(owned("tagged bytes OOB"));
    }
    decode_span(mem, start, end, "tagged utf8: ")
}

/// The error when the guest returns a string but exports no memory.
pub open spec fn no_memory_message() -> Seq<char> {
    "browse__view_text returned a String ptr but guest exports no `memory` (rebuild with Gleam Wasm strings)"@
}

/// The error when neither layout decodes the string at `ptr`.
pub open spec fn undecodable_message(ptr: int) -> Seq<char> {
    "cannot decode Gleam String at ptr "@ + signed_decimal(ptr)
        + ": need gleam_string_utf8_len/ptr (or __gleam_string_len/data) exports, or a length-prefixed UTF-8 layout"@
}

/// Read the managed string at `ptr`.
///
/// `helpers` holds what the guest's string helpers answered for `ptr` (its
/// UTF-8 byte length, then the address of its bytes, each the call's result
/// or the call's error text) when the guest exports both helpers; `memory`
/// is the guest's linear memory when it exports one. A null or negative
/// pointer reads as the empty string.
pub fn read_guest_string(
    ptr: i32,
    helpers: Option<(Result<i32, String>, Result<i32, String>)>,
    memory: Option<&[u8]>,
) -> (r: Result<String, String>)
    ensures
        ptr <= 0 ==> (r matches Ok(s) && s@.len() == 0),
        ptr > 0 ==> match (helpers, memory) {
            (Some((Err(e), _)), Some(_)) => (r matches Err(m) && m@ == "string_len: "@ + e@),
            (Some((Ok(_), Err(e))), Some(_)) => (r matches Err(m) && m@ == "string_data: "@ + e@),
            (Some((Ok(len), Ok(data_ptr))), Some(mem)) => span_outcome(
                r,
                mem@,
                helper_span(mem@.len(), data_ptr as int, len as int),
                "guest string utf8: "@,
            ),
            (_, None) => (r matches Err(m) && m@ == no_memory_message()),
            (None, Some(mem)) => if span_decodes(mem@, len_prefixed_span(mem@, ptr as int)) {
                span_outcome(r, mem@, len_prefixed_span(mem@, ptr as int), ""@)
            } else if span_decodes(mem@, tagged_span(mem@, ptr as int)) {
                span_outcome(r, mem@, tagged_span(mem@, ptr as int), ""@)
            } else {
                (r matches Err(m) && m@ == undecodable_message(ptr as int))
            },
        },
{
    if ptr <= 0 {
        return Ok(String::new());
    }
    match (helpers, memory) {
        (Some((len_call, data_call)), Some(mem)) => {
            let len = match len_call {
                Ok(n) => n,
                Err(e) => {
                    return Err(with_detail("string_len: ", e.as_str()));
                },
            };
            let data_ptr = match data_call {
                Ok(d) => d,
                Err(e) => {
                    return Err(with_detail("string_data: ", e.as_str()));
                },
            };
            copy_utf8(mem, data_ptr, len)
        },
        (_, None) => Err(
            owned(
                "browse__view_text returned a String ptr but guest exports no `memory` (rebuild with Gleam Wasm strings)",
            ),
        ),
        (None, Some(mem)) => {
            if let Ok(s) = read_len_prefixed(mem, ptr) {
                return Ok(s);
            }
            if let Ok(s) = read_tagged_string(mem, ptr) {
                return Ok(s);
            }
            let mut m = with_detail("cannot decode Gleam String at ptr ", decimal_i64(ptr as i64).as_str());
            m.append(
                ": need gleam_string_utf8_len/ptr (or __gleam_string_len/data) exports, or a length-prefixed UTF-8 layout",
            );
            Err(m)
        },
    }
}


#[verifier::external_type_specification]
#[verifier::external_body]
pub struct ExConfig(Config);

#[verifier::external_type_specification]
#[verifier::external_body]
pub struct ExEngine(Engine);

#[verifier::external_type_specification]
#[verifier::external_body]
pub struct ExModule(Module);

#[verifier::external_type_specification]
#[verifier::external_body]
#[verifier::reject_recursive_types(T)]
pub struct ExStore<T: 'static>(Store<T>);

#[verifier::external_type_specification]
#[verifier::external_body]
pub struct ExInstance(Instance);

#[verifier::external_type_specification]
#[verifier::external_body]
pub struct ExMemory(Memory);

#[verifier::external_type_specification]
#[verifier::external_body]
#[verifier::reject_recursive_types(Params)]
#[verifier::reject_recursive_types(Results)]
pub struct ExTypedFunc<Params, Results>(TypedFunc<Params, Results>);

#[verifier::external_type_specification]
#[verifier::external_body]
pub struct ExWasmError(wasmtime::Error);

/// Fuel given to the guest before each call (and before its start
/// function): about this many WebAssembly instructions may run before the
/// call traps. It bounds a guest that never returns.
pub const GUEST_FUEL: u64 = 100_000_000;

/// Trusted: `Config::new` from wasmtime, the default engine configuration.
/// Nothing is stated of the value, which is opaque here.
#[verifier::external_body]
fn default_config() -> Config {
    Config::new()
}

/// Trusted: `Config::consume_fuel` from wasmtime: compiled code counts the
/// instructions it runs against the store's fuel and traps when the fuel is
/// gone. Nothing is stated of the configuration, which is opaque here.
#[verifier::external_body]
fn set_consume_fuel(config: &mut Config, enable: bool) {
    config.consume_fuel(enable);
}

/// Trusted: `Engine::new` from wasmtime, which fails when the configuration
/// is invalid for this host. Nothing is stated of which outcome comes.
#[verifier::external_body]
fn new_engine(config: &Config) -> Result<Engine, wasmtime::Error> {
    Engine::new(config)
}

/// Trusted: `Module::new` from wasmtime, which decodes, validates and
/// compiles a module from its binary (or text) form, and fails when the bytes
/// are not a valid module. Nothing is stated of which outcome comes.
#[verifier::external_body]
fn compile_module(engine: &Engine, bytes: &[u8]) -> Result<Module, wasmtime::Error> {
    Module::new(engine, bytes)
}

/// Trusted: `Store::try_new` from wasmtime, with no host data; it fails only
/// when allocation fails. Nothing is stated of which outcome comes.
#[verifier::external_body]
fn new_store(engine: &Engine) -> Result<Store<()>, wasmtime::Error> {
    Store::try_new(engine, ())
}

/// Trusted: `Store::set_fuel` from wasmtime: the fuel that guest code run in
/// `store` may use from now on. It fails when the store's engine does not
/// consume fuel. Nothing is stated of which outcome comes.
#[verifier::external_body]
fn set_fuel(store: &mut Store<()>, fuel: u64) -> Result<(), wasmtime::Error> {
    store.set_fuel(fuel)
}

/// A started guest: the instance together with the store it lives in, and
/// the export names looked up in it so far. Only [`instantiate`] makes one,
/// so the instance always belongs to the store beside it.
struct Guest {
    store: Store<()>,
    instance: Instance,
    lookups: Ghost<Seq<Seq<char>>>,
}

/// Trusted: `Instance::new` from wasmtime with no imports, run in `store`:
/// it runs the module's start function and fails when the module needs
/// imports, when the start function traps (running out of the store's fuel
/// among the reasons), or when the module belongs to another engine. The
/// store and the new instance are kept together. Nothing is stated of which
/// outcome comes.
#[verifier::external_body]
fn instantiate(store: Store<()>, module: &Module) -> (r: Result<Guest, wasmtime::Error>)
    ensures
        r matches Ok(g) ==> g.lookups@ == Seq::<Seq<char>>::empty(),
{
    let mut store = store;
    match Instance::new(&mut store, module, &[]) {
        Ok(instance) => Ok(Guest { store, instance, lookups: Ghost(Seq::empty()) }),
        Err(e) => Err(e),
    }
}

impl Guest {
    /// Trusted: `Instance::get_typed_func` from wasmtime, asked of the
    /// guest's own instance in its own store: the function exported under
    /// `name`, when there is one of the given type, else an error. The
    /// lookup is added to the guest's record of lookups; which outcome comes
    /// is not stated.
    #[verifier::external_body]
    fn typed_export<Params: WasmParams, Results: WasmResults>(&mut self, name: &str) -> (r: Result<
        TypedFunc<Params, Results>,
        wasmtime::Error,
    >)
        ensures
            final(self).lookups@ == old(self).lookups@.push(name@),
    {
        self.instance.get_typed_func::<Params, Results>(&mut self.store, name)
    }

    /// Trusted: `Instance::get_memory` from wasmtime, asked of the guest's own
    /// instance in its own store: the memory exported under `name`, if any.
    /// The lookup is added to the guest's record of lookups.
    #[verifier::external_body]
    fn memory_export(&mut self, name: &str) -> (r: Option<Memory>)
        ensures
            final(self).lookups@ == old(self).lookups@.push(name@),
    {
        self.instance.get_memory(&mut self.store, name)
    }
}

/// Trusted: the `Display` text of a wasmtime error (`ToString::to_string`).
/// The text is not stated.
#[verifier::external_body]
fn error_text(e: &wasmtime::Error) -> String {
    e.to_string()
}

/// `prefix` followed by the error's text.
fn error_with(prefix: &str, e: &wasmtime::Error) -> (r: String)
    ensures
        has_prefix(r@, prefix@),
{
    let text = error_text(e);
    let r = with_detail(prefix, text.as_str());
    assert(r@.subrange(0, prefix@.len() as int) =~= prefix@);
    r
}

/// The first present entry of `s`, in order; `None` when there is none.
pub open spec fn first_some<T>(s: Seq<Option<T>>) -> Option<T>
    decreases s.len(),
{
    if s.len() == 0 {
        None
    } else if s[0] is Some {
        s[0]
    } else {
        first_some(s.drop_first())
    }
}

/// The first found entry of `found` (one entry per candidate name, in the
/// order the names are tried).
pub fn first_found<T>(found: Vec<Option<T>>) -> (r: Option<T>)
    ensures
        r == first_some(found@),
{
    let ghost all = found@;
    let mut found = found;
    let mut r: Option<T> = None;
    while found.len() > 0
        invariant
            found@ == all.take(found@.len() as int),
            r == first_some(all.subrange(found@.len() as int, all.len() as int)),
            found@.len() <= all.len(),
        decreases found@.len(),
    {
        let ghost k = (found@.len() - 1) as int;
        let x = found.pop().unwrap();
        assert(all.subrange(k, all.len() as int).drop_first() =~= all.subrange(k + 1, all.len() as int));
        assert(all.subrange(k, all.len() as int)[0] == all[k]);
        assert(found@ =~= all.take(k));
        if x.is_some() {
            r = x;
        }
    }
    assert(all.subrange(0, all.len() as int) =~= all);
    r
}

/// Look up each of `names` as an `(i32) -> i32` export, in order, and keep
/// the first that the guest has.
fn first_export(guest: &mut Guest, names: &[&str]) -> (r: Option<TypedFunc<i32, i32>>)
    ensures
        final(guest).lookups@ == old(guest).lookups@ + str_views(names@),
        names@.len() == 0 ==> r is None,
{
    let mut found: Vec<Option<TypedFunc<i32, i32>>> = Vec::new();
    let mut k: usize = 0;
    while k < names.len()
        invariant
            k <= names@.len(),
            found@.len() == k,
            guest.lookups@ == old(guest).lookups@ + str_views(names@.take(k as int)),
        decreases names@.len() - k,
    {
        let f = match guest.typed_export::<i32, i32>(names[k]) {
            Ok(f) => Some(f),
            Err(_) => None,
        };
        found.push(f);
        proof {
            assert(names@.take(k + 1) =~= names@.take(k as int).push(names@[k as int]));
            assert(str_views(names@.take(k + 1)) =~= str_views(names@.take(k as int)).push(names@[k as int]@));
        }
        k += 1;
    }
    proof {
        assert(names@.take(k as int) =~= names@);
    }
    first_found(found)
}

/// The character sequences of a list of string slices.
pub open spec fn str_views(s: Seq<&str>) -> Seq<Seq<char>> {
    s.map_values(|x: &str| x@)
}

/// The four scalar exports every guest must have, as looked up: the first
/// one missing is reported as `export <name>: <why>`.
pub fn require_exports<A, B, C, D>(
    init: Result<A, String>,
    update: Result<B, String>,
    view_len: Result<C, String>,
    view_at: Result<D, String>,
) -> (r: Result<(A, B, C, D), String>)
    ensures
        match (init, update, view_len, view_at) {
            (Err(e), _, _, _) => r matches Err(m) && m@ == "export browse__init: "@ + e@,
            (Ok(_), Err(e), _, _) => r matches Err(m) && m@ == "export browse__update: "@ + e@,
            (Ok(_), Ok(_), Err(e), _) => r matches Err(m) && m@ == "export browse__view_len: "@ + e@,
            (Ok(_), Ok(_), Ok(_), Err(e)) => r matches Err(m) && m@ == "export browse__view_at: "@ + e@,
            (Ok(a), Ok(b), Ok(c), Ok(d)) => r == Ok::<(A, B, C, D), String>((a, b, c, d)),
        },
        r matches Err(m) ==> load_error(m@),
{
    let r = match (init, update, view_len, view_at) {
        (Err(e), _, _, _) => Err(with_detail("export browse__init: ", e.as_str())),
        (Ok(_), Err(e), _, _) => Err(with_detail("export browse__update: ", e.as_str())),
        (Ok(_), Ok(_), Err(e), _) => Err(with_detail("export browse__view_len: ", e.as_str())),
        (Ok(_), Ok(_), Ok(_), Err(e)) => Err(with_detail("export browse__view_at: ", e.as_str())),
        (Ok(a), Ok(b), Ok(c), Ok(d)) => Ok((a, b, c, d)),
    };
    proof {
        if r is Err {
            let m = r->Err_0;
            lemma_prefix_of("export browse__init: "@, m@);
            lemma_prefix_of("export browse__update: "@, m@);
            lemma_prefix_of("export browse__view_len: "@, m@);
            lemma_prefix_of("export browse__view_at: "@, m@);
        }
    }
    r
}

/// When `m` is `p` followed by something, `m` begins with `p`.
proof fn lemma_prefix_of(p: Seq<char>, m: Seq<char>)
    ensures
        (exists|e: Seq<char>| m == p + e) ==> has_prefix(m, p),
{
    if exists|e: Seq<char>| m == p + e {
        let e = choose|e: Seq<char>| m == p + e;
        assert(m.subrange(0, p.len() as int) =~= p);
    }
}

/// What the answer of a string-returning export gives: a failed call is an
/// error, `prefix` followed by the call's error text; a null pointer is the
/// empty string (`None` here); any other pointer is read (`Some`).
pub fn string_reply(prefix: &str, call: Result<i32, String>) -> (r: Result<Option<i32>, String>)
    ensures
        match call {
            Err(e) => r matches Err(m) && m@ == prefix@ + e@,
            Ok(p) => if p == 0 {
                r == Ok::<Option<i32>, String>(None)
            } else {
                r == Ok::<Option<i32>, String>(Some(p))
            },
        },
{
    match call {
        Err(e) => Err(with_detail(prefix, e.as_str())),
        Ok(p) => if p == 0 {
            Ok(None)
        } else {
            Ok(Some(p))
        },
    }
}

/// A call the session made into the guest: the export and its arguments.
pub enum GuestCall {
    Init,
    Update(i64, i64),
    ViewLen(i64),
    ViewAt(i64, i64),
    ViewText(i64, i64),
    Label(i32),
    StringLen(i32),
    StringData(i32),
}

/// What a guest call answered: its value, or `None` when it trapped.
pub open spec fn answer_of(r: Result<i64, wasmtime::Error>) -> Option<i64> {
    match r {
        Ok(v) => Some(v),
        Err(_) => None,
    }
}

/// The answer a helper reply `r` records: its value, or `None` for an error.
pub open spec fn reply_answer(r: Result<i32, String>) -> Option<i64> {
    match r {
        Ok(v) => Some(v as i64),
        Err(_) => None,
    }
}

/// What a guest call with a 32-bit result answered.
pub open spec fn answer_of_i32(r: Result<i32, wasmtime::Error>) -> Option<i64> {
    match r {
        Ok(v) => Some(v as i64),
        Err(_) => None,
    }
}

/// `after` is `before` with one more call `call` whose answer `r` gives
/// back, its failure an error starting with `prefix`; or no call was made
/// (the fuel could not be set) and `r` is such an error.
pub open spec fn one_call(
    before: Seq<(GuestCall, Option<i64>)>,
    after: Seq<(GuestCall, Option<i64>)>,
    call: GuestCall,
    r: Result<i64, String>,
    prefix: Seq<char>,
) -> bool {
    ||| after == before && (r matches Err(e) && has_prefix(e@, prefix))
    ||| {
        &&& after.len() == before.len() + 1
        &&& after.take(before.len() as int) == before
        &&& after.last().0 == call
        &&& match after.last().1 {
            Some(v) => r == Ok::<i64, String>(v),
            None => r matches Err(e) && has_prefix(e@, prefix),
        }
    }
}

/// `after` is `before` with more calls at its end.
pub open spec fn extends(after: Seq<(GuestCall, Option<i64>)>, before: Seq<(GuestCall, Option<i64>)>) -> bool {
    &&& after.len() >= before.len()
    &&& forall|k: int| 0 <= k < before.len() ==> #[trigger] after[k] == before[k]
}

/// A running guest: its store and instance, the scalar exports every guest
/// has, the optional ones for guest strings (the text of a view op, a chrome
/// label, the string helpers of the runtime, and the linear memory), and the
/// record of the calls made into it with their answers and of the snapshots
/// of its memory read. Every handle here was
/// taken from the guest's own instance, and every call runs under the fuel
/// set just before.
pub struct Session {
    guest: Guest,
    memory: Option<Memory>,
    init: TypedFunc<(), i64>,
    update: TypedFunc<(i64, i64), i64>,
    view_len: TypedFunc<i64, i64>,
    view_at: TypedFunc<(i64, i64), i64>,
    view_text: Option<TypedFunc<(i64, i64), i32>>,
    label: Option<TypedFunc<i32, i32>>,
    string_len: Option<TypedFunc<i32, i32>>,
    string_data: Option<TypedFunc<i32, i32>>,
    calls: Ghost<Seq<(GuestCall, Option<i64>)>>,
    reads: Ghost<Seq<Seq<u8>>>,
}

/// A load failure names the step that failed: compiling, instantiating, or
/// a missing scalar export.
pub open spec fn load_error(e: Seq<char>) -> bool {
    ||| has_prefix(e, "engine: "@)
    ||| has_prefix(e, "parse browse.wasm: "@)
    ||| has_prefix(e, "store: "@)
    ||| has_prefix(e, "instantiate browse.wasm: "@)
    ||| has_prefix(e, "export browse__init: "@)
    ||| has_prefix(e, "export browse__update: "@)
    ||| has_prefix(e, "export browse__view_len: "@)
    ||| has_prefix(e, "export browse__view_at: "@)
}

/// Names of the runtime's string-length helper, in the order they are tried.
pub open spec fn string_len_names() -> Seq<Seq<char>> {
    seq![
        "gleam_string_utf8_len"@,
        "__gleam_string_len"@,
        "__gleam_string_byte_len"@,
        "string_len"@,
        "string_byte_size"@,
    ]
}

/// Names of the runtime's string-data helper, in the order they are tried.
pub open spec fn string_data_names() -> Seq<Seq<char>> {
    seq![
        "gleam_string_utf8_ptr"@,
        "__gleam_string_data"@,
        "__gleam_string_as_bytes"@,
        "string_data"@,
        "string_utf8_ptr"@,
    ]
}

/// The exports a load looks up, in order: the memory, the two optional
/// string exports, the candidates for each string helper, then the four
/// scalar exports.
pub open spec fn load_lookups() -> Seq<Seq<char>> {
    seq!["memory"@, "browse__view_text"@, "browse__label"@] + string_len_names() + string_data_names()
        + seq!["browse__init"@, "browse__update"@, "browse__view_len"@, "browse__view_at"@]
}

impl Session {
    /// The guest exports `browse__view_text`.
    pub closed spec fn exports_view_text(self) -> bool {
        self.view_text is Some
    }

    /// The guest exports `browse__label`.
    pub closed spec fn exports_label(self) -> bool {
        self.label is Some
    }

    /// The guest exports both string helpers of its runtime.
    pub closed spec fn exports_helpers(self) -> bool {
        self.string_len is Some && self.string_data is Some
    }

    /// The guest exports its linear memory.
    pub closed spec fn exports_memory(self) -> bool {
        self.memory is Some
    }

    /// The calls made into the guest so far with their answers, oldest first.
    pub closed spec fn calls(self) -> Seq<(GuestCall, Option<i64>)> {
        self.calls@
    }

    /// The snapshots of the guest's memory read so far, oldest first.
    pub closed spec fn reads(self) -> Seq<Seq<u8>> {
        self.reads@
    }

    /// The export names looked up in the guest, in order.
    pub closed spec fn lookups(self) -> Seq<Seq<char>> {
        self.guest.lookups@
    }

    /// `self` and `other` hold the same exports and lookups.
    pub closed spec fn same_exports(self, other: Session) -> bool {
        &&& self.memory == other.memory
        &&& self.init == other.init
        &&& self.update == other.update
        &&& self.view_len == other.view_len
        &&& self.view_at == other.view_at
        &&& self.view_text == other.view_text
        &&& self.label == other.label
        &&& self.string_len == other.string_len
        &&& self.string_data == other.string_data
        &&& self.guest.lookups == other.guest.lookups
    }

    /// Trusted: `TypedFunc::call` from wasmtime on the guest's `browse__init`
    /// in the guest's own store. It fails when the guest traps, running out of
    /// fuel among the reasons. The call and its answer are added to the record
    /// of calls; what the guest answers depends on its state and is not
    /// stated.
    #[verifier::external_body]
    fn call_init(&mut self) -> (r: Result<i64, wasmtime::Error>)
        ensures
            final(self).calls@ == old(self).calls@.push((GuestCall::Init, answer_of(r))),
            final(self).same_exports(*old(self)),
            final(self).reads@ == old(self).reads@,
    {
        self.init.call(&mut self.guest.store, ())
    }

    /// Trusted: `TypedFunc::call` on `browse__update` with `(model, msg)`, as
    /// for [`Session::call_init`].
    #[verifier::external_body]
    fn call_update(&mut self, model: i64, msg: i64) -> (r: Result<i64, wasmtime::Error>)
        ensures
            final(self).calls@ == old(self).calls@.push((GuestCall::Update(model, msg), answer_of(r))),
            final(self).same_exports(*old(self)),
            final(self).reads@ == old(self).reads@,
    {
        self.update.call(&mut self.guest.store, (model, msg))
    }

    /// Trusted: `TypedFunc::call` on `browse__view_len` with `model`, as for
    /// [`Session::call_init`].
    #[verifier::external_body]
    fn call_view_len(&mut self, model: i64) -> (r: Result<i64, wasmtime::Error>)
        ensures
            final(self).calls@ == old(self).calls@.push((GuestCall::ViewLen(model), answer_of(r))),
            final(self).same_exports(*old(self)),
            final(self).reads@ == old(self).reads@,
    {
        self.view_len.call(&mut self.guest.store, model)
    }

    /// Trusted: `TypedFunc::call` on `browse__view_at` with `(model, i)`, as
    /// for [`Session::call_init`].
    #[verifier::external_body]
    fn call_view_at(&mut self, model: i64, i: i64) -> (r: Result<i64, wasmtime::Error>)
        ensures
            final(self).calls@ == old(self).calls@.push((GuestCall::ViewAt(model, i), answer_of(r))),
            final(self).same_exports(*old(self)),
            final(self).reads@ == old(self).reads@,
    {
        self.view_at.call(&mut self.guest.store, (model, i))
    }

    /// Trusted: `TypedFunc::call` on `browse__view_text` with `(model, i)`, as
    /// for [`Session::call_init`]; `None`, with no call, when the guest does
    /// not export it.
    #[verifier::external_body]
    fn call_view_text(&mut self, model: i64, i: i64) -> (r: Option<Result<i32, wasmtime::Error>>)
        ensures
            r is Some <==> old(self).view_text is Some,
            final(self).calls@ == match r {
                Some(res) => old(self).calls@.push((GuestCall::ViewText(model, i), answer_of_i32(res))),
                None => old(self).calls@,
            },
            final(self).same_exports(*old(self)),
            final(self).reads@ == old(self).reads@,
    {
        let store = &mut self.guest.store;
        self.view_text.as_ref().map(|f| f.call(store, (model, i)))
    }

    /// Trusted: `TypedFunc::call` on `browse__label` with `id`, as for
    /// [`Session::call_view_text`].
    #[verifier::external_body]
    fn call_label(&mut self, id: i32) -> (r: Option<Result<i32, wasmtime::Error>>)
        ensures
            r is Some <==> old(self).label is Some,
            final(self).calls@ == match r {
                Some(res) => old(self).calls@.push((GuestCall::Label(id), answer_of_i32(res))),
                None => old(self).calls@,
            },
            final(self).same_exports(*old(self)),
            final(self).reads@ == old(self).reads@,
    {
        let store = &mut self.guest.store;
        self.label.as_ref().map(|f| f.call(store, id))
    }

    /// Trusted: `TypedFunc::call` on the runtime's string-length helper with
    /// `ptr`, as for [`Session::call_view_text`].
    #[verifier::external_body]
    fn call_string_len(&mut self, ptr: i32) -> (r: Option<Result<i32, wasmtime::Error>>)
        ensures
            r is Some <==> old(self).string_len is Some,
            final(self).calls@ == match r {
                Some(res) => old(self).calls@.push((GuestCall::StringLen(ptr), answer_of_i32(res))),
                None => old(self).calls@,
            },
            final(self).same_exports(*old(self)),
            final(self).reads@ == old(self).reads@,
    {
        let store = &mut self.guest.store;
        self.string_len.as_ref().map(|f| f.call(store, ptr))
    }

    /// Trusted: `TypedFunc::call` on the runtime's string-data helper with
    /// `ptr`, as for [`Session::call_view_text`].
    #[verifier::external_body]
    fn call_string_data(&mut self, ptr: i32) -> (r: Option<Result<i32, wasmtime::Error>>)
        ensures
            r is Some <==> old(self).string_data is Some,
            final(self).calls@ == match r {
                Some(res) => old(self).calls@.push((GuestCall::StringData(ptr), answer_of_i32(res))),
                None => old(self).calls@,
            },
            final(self).same_exports(*old(self)),
            final(self).reads@ == old(self).reads@,
    {
        let store = &mut self.guest.store;
        self.string_data.as_ref().map(|f| f.call(store, ptr))
    }

    /// Trusted: `Memory::data` from wasmtime on the guest's exported memory
    /// in the guest's own store: its current bytes, which are added to the
    /// record of memory reads; `None` when the guest exports no memory. What
    /// the bytes hold depends on the guest's state and is not stated.
    #[verifier::external_body]
    fn memory_bytes(&mut self) -> (r: Option<&[u8]>)
        ensures
            r is Some <==> old(self).memory is Some,
            final(self).reads@ == match r {
                Some(b) => old(self).reads@.push(b@),
                None => old(self).reads@,
            },
            final(self).calls@ == old(self).calls@,
            final(self).same_exports(*old(self)),
    {
        let store = &self.guest.store;
        self.memory.as_ref().map(|m| m.data(store))
    }

    /// Refill the guest's fuel before a call; the error names the call.
    fn refuel(&mut self, prefix: &str) -> (r: Result<(), String>)
        ensures
            r matches Err(e) ==> has_prefix(e@, prefix@),
            final(self).calls() == old(self).calls(),
            final(self).reads() == old(self).reads(),
            final(self).same_exports(*old(self)),
    {
        match set_fuel(&mut self.guest.store, GUEST_FUEL) {
            Ok(()) => Ok(()),
            Err(e) => Err(error_with(prefix, &e)),
        }
    }

    /// Compile and start the guest module `wasm` (binary or text form) with
    /// fuel-bounded execution, and look up its exports: the memory and the
    /// optional string exports, each candidate name of the two string
    /// helpers (the first one present is used, see [`first_found`]), then the
    /// four required scalar exports (see [`require_exports`]).
    pub fn load(wasm: &[u8]) -> (r: Result<Session, String>)
        ensures
            r matches Err(e) ==> load_error(e@),
            r matches Ok(s) ==> s.calls() == Seq::<(GuestCall, Option<i64>)>::empty() && s.reads() == Seq::<
                Seq<u8>,
            >::empty() && s.lookups() == load_lookups(),
    {
        let mut config = default_config();
        set_consume_fuel(&mut config, true);
        let engine = match new_engine(&config) {
            Ok(e) => e,
            Err(e) => {
                return Err(error_with("engine: ", &e));
            },
        };
        let module = match compile_module(&engine, wasm) {
            Ok(m) => m,
            Err(e) => {
                return Err(error_with("parse browse.wasm: ", &e));
            },
        };
        let mut store = match new_store(&engine) {
            Ok(s) => s,
            Err(e) => {
                return Err(error_with("store: ", &e));
            },
        };
        if let Err(e) = set_fuel(&mut store, GUEST_FUEL) {
            return Err(error_with("store: ", &e));
        }
        let mut guest = match instantiate(store, &module) {
            Ok(g) => g,
            Err(e) => {
                return Err(error_with("instantiate browse.wasm: ", &e));
            },
        };
        let memory = guest.memory_export("memory");
        let view_text = match guest.typed_export::<(i64, i64), i32>("browse__view_text") {
            Ok(f) => Some(f),
            Err(_) => None,
        };
        let label = match guest.typed_export::<i32, i32>("browse__label") {
            Ok(f) => Some(f),
            Err(_) => None,
        };
        let len_names: [&str; 5] = [
            "gleam_string_utf8_len",
            "__gleam_string_len",
            "__gleam_string_byte_len",
            "string_len",
            "string_byte_size",
        ];
        let data_names: [&str; 5] = [
            "gleam_string_utf8_ptr",
            "__gleam_string_data",
            "__gleam_string_as_bytes",
            "string_data",
            "string_utf8_ptr",
        ];
        let string_len = first_export(&mut guest, &len_names);
        let string_data = first_export(&mut guest, &data_names);
        let init = match guest.typed_export::<(), i64>("browse__init") {
            Ok(f) => Ok(f),
            Err(e) => Err(error_text(&e)),
        };
        let update = match guest.typed_export::<(i64, i64), i64>("browse__update") {
            Ok(f) => Ok(f),
            Err(e) => Err(error_text(&e)),
        };
        let view_len = match guest.typed_export::<i64, i64>("browse__view_len") {
            Ok(f) => Ok(f),
            Err(e) => Err(error_text(&e)),
        };
        let view_at = match guest.typed_export::<(i64, i64), i64>("browse__view_at") {
            Ok(f) => Ok(f),
            Err(e) => Err(error_text(&e)),
        };
        proof {
            assert(str_views(len_names@) =~= string_len_names());
            assert(str_views(data_names@) =~= string_data_names());
            assert(guest.lookups@ =~= load_lookups());
        }
        let (init, update, view_len, view_at) = match require_exports(init, update, view_len, view_at) {
            Ok(t) => t,
            Err(m) => {
                return Err(m);
            },
        };
        Ok(Session {
            guest,
            memory,
            init,
            update,
            view_len,
            view_at,
            view_text,
            label,
            string_len,
            string_data,
            calls: Ghost(Seq::empty()),
            reads: Ghost(Seq::empty()),
        })
    }

    /// Whether the guest exports `browse__view_text`.
    pub fn has_view_text(&self) -> (r: bool)
        ensures
            r == self.exports_view_text(),
    {
        self.view_text.is_some()
    }

    /// Whether the guest exports `browse__label`.
    pub fn has_label(&self) -> (r: bool)
        ensures
            r == self.exports_label(),
    {
        self.label.is_some()
    }

    /// The guest's initial model: one call of `browse__init`, whose answer
    /// is returned.
    pub fn init(&mut self) -> (r: Result<i64, String>)
        ensures
            one_call(old(self).calls(), final(self).calls(), GuestCall::Init, r, "browse__init: "@),
            final(self).reads() == old(self).reads(),
            final(self).same_exports(*old(self)),
            final(self).exports_view_text() == old(self).exports_view_text(),
            final(self).exports_label() == old(self).exports_label(),
    {
        self.refuel("browse__init: ")?;
        let ghost before = self.calls@;
        let r = match self.call_init() {
            Ok(m) => Ok(m),
            Err(e) => Err(error_with("browse__init: ", &e)),
        };
        proof {
            assert(self.calls@.take(before.len() as int) =~= before);
        }
        r
    }

    /// The guest's model after message `msg`: one call of `browse__update`
    /// with `(model, msg)`, whose answer is returned.
    pub fn update(&mut self, model: i64, msg: i64) -> (r: Result<i64, String>)
        ensures
            one_call(
                old(self).calls(),
                final(self).calls(),
                GuestCall::Update(model, msg),
                r,
                "browse__update: "@,
            ),
            final(self).reads() == old(self).reads(),
            final(self).same_exports(*old(self)),
            final(self).exports_view_text() == old(self).exports_view_text(),
            final(self).exports_label() == old(self).exports_label(),
    {
        self.refuel("browse__update: ")?;
        let ghost before = self.calls@;
        let r = match self.call_update(model, msg) {
            Ok(m) => Ok(m),
            Err(e) => Err(error_with("browse__update: ", &e)),
        };
        proof {
            assert(self.calls@.take(before.len() as int) =~= before);
        }
        r
    }

    /// How many ops the view of `model` has: one call of `browse__view_len`,
    /// whose answer is returned.
    pub fn view_len(&mut self, model: i64) -> (r: Result<i64, String>)
        ensures
            one_call(
                old(self).calls(),
                final(self).calls(),
                GuestCall::ViewLen(model),
                r,
                "browse__view_len: "@,
            ),
            final(self).reads() == old(self).reads(),
            final(self).same_exports(*old(self)),
            final(self).exports_view_text() == old(self).exports_view_text(),
            final(self).exports_label() == old(self).exports_label(),
    {
        self.refuel("browse__view_len: ")?;
        let ghost before = self.calls@;
        let r = match self.call_view_len(model) {
            Ok(n) => Ok(n),
            Err(e) => Err(error_with("browse__view_len: ", &e)),
        };
        proof {
            assert(self.calls@.take(before.len() as int) =~= before);
        }
        r
    }

    /// The packed op `i` of the view of `model`: one call of
    /// `browse__view_at` with `(model, i)`, whose answer is returned.
    pub fn view_at(&mut self, model: i64, i: i64) -> (r: Result<i64, String>)
        ensures
            one_call(
                old(self).calls(),
                final(self).calls(),
                GuestCall::ViewAt(model, i),
                r,
                "browse__view_at: "@,
            ),
            final(self).reads() == old(self).reads(),
            final(self).same_exports(*old(self)),
            final(self).exports_view_text() == old(self).exports_view_text(),
            final(self).exports_label() == old(self).exports_label(),
    {
        self.refuel("browse__view_at: ")?;
        let ghost before = self.calls@;
        let r = match self.call_view_at(model, i) {
            Ok(p) => Ok(p),
            Err(e) => Err(error_with("browse__view_at: ", &e)),
        };
        proof {
            assert(self.calls@.take(before.len() as int) =~= before);
        }
        r
    }

    /// Ask one string helper about `ptr` under fresh fuel: no call and an
    /// error when the fuel cannot be set, else one recorded call whose answer
    /// is the result.
    fn helper_answer(&mut self, ptr: i32, data: bool) -> (r: Result<i32, String>)
        requires
            data ==> old(self).string_data is Some,
            !data ==> old(self).string_len is Some,
        ensures
            final(self).same_exports(*old(self)),
            final(self).reads() == old(self).reads(),
            ({
                let call = if data {
                    GuestCall::StringData(ptr)
                } else {
                    GuestCall::StringLen(ptr)
                };
                ||| final(self).calls() == old(self).calls() && r is Err
                ||| final(self).calls() == old(self).calls().push((call, reply_answer(r)))
            }),
    {
        if let Err(e) = set_fuel(&mut self.guest.store, GUEST_FUEL) {
            return Err(error_text(&e));
        }
        let call = if data {
            self.call_string_data(ptr)
        } else {
            self.call_string_len(ptr)
        };
        match call {
            Some(Ok(n)) => Ok(n),
            Some(Err(e)) => Err(error_text(&e)),
            None => Err(String::new()),
        }
    }

    /// Read the managed string at `ptr`: when the guest exports both string
    /// helpers and a memory, the length helper is asked first and the data
    /// helper only after it answered; the memory is read, and
    /// [`read_guest_string`] does the rest.
    fn read_string(&mut self, ptr: i32) -> (r: Result<String, String>)
        ensures
            final(self).memory == old(self).memory,
            final(self).same_exports(*old(self)),
            final(self).exports_view_text() == old(self).exports_view_text(),
            final(self).exports_label() == old(self).exports_label(),
            extends(final(self).calls(), old(self).calls()),
            final(self).reads().len() >= old(self).reads().len(),
            final(self).reads().take(old(self).reads().len() as int) == old(self).reads(),
            string_read(
                final(self).calls().skip(old(self).calls().len() as int),
                final(self).reads().skip(old(self).reads().len() as int),
                ptr,
                old(self).exports_helpers(),
                old(self).exports_memory(),
                r,
            ),
    {
        let ghost c0 = self.calls@;
        let ghost r0 = self.reads@;
        if ptr <= 0 {
            proof {
                assert(self.calls@.skip(c0.len() as int) =~= Seq::<(GuestCall, Option<i64>)>::empty());
                assert(self.reads@.skip(r0.len() as int) =~= Seq::<Seq<u8>>::empty());
            }
            return Ok(String::new());
        }
        if self.memory.is_none() {
            proof {
                assert(self.calls@.skip(c0.len() as int) =~= Seq::<(GuestCall, Option<i64>)>::empty());
                assert(self.reads@.skip(r0.len() as int) =~= Seq::<Seq<u8>>::empty());
            }
            return Err(owned(
                "browse__view_text returned a String ptr but guest exports no `memory` (rebuild with Gleam Wasm strings)",
            ));
        }
        let helpers = if self.string_len.is_some() && self.string_data.is_some() {
            let len = self.helper_answer(ptr, false);
            let ghost c1 = self.calls@;
            let data = match &len {
                Ok(_) => self.helper_answer(ptr, true),
                Err(e) => Err(e.clone()),
            };
            proof {
                let seg = self.calls@.skip(c0.len() as int);
                if c1 == c0 {
                    assert(self.calls@ == c0);
                    assert(seg =~= Seq::<(GuestCall, Option<i64>)>::empty());
                } else {
                    assert(c1.len() == c0.len() + 1);
                    if self.calls@ == c1 {
                        assert(seg =~= seq![c1.last()]);
                    } else {
                        assert(seg =~= seq![c1.last(), self.calls@.last()]);
                    }
                }
                if len is Err {
                    lemma_concat_prefix("string_len: "@, len->Err_0@);
                } else if data is Err {
                    lemma_concat_prefix("string_data: "@, data->Err_0@);
                }
            }
            Some((len, data))
        } else {
            proof {
                assert(self.calls@.skip(c0.len() as int) =~= Seq::<(GuestCall, Option<i64>)>::empty());
            }
            None
        };
        let ghost c2 = self.calls@;
        let memory = self.memory_bytes();
        let r = read_guest_string(ptr, helpers, memory);
        proof {
            assert(self.reads@.skip(r0.len() as int) =~= seq![self.reads@.last()]);
            assert(self.reads@.take(r0.len() as int) =~= r0);
            assert(self.calls@ == c2);
        }
        r
    }

    /// The guest's text for op `i` of the view of `model`: `None` when the
    /// guest does not export `browse__view_text`; otherwise one call of the
    /// export with `(model, i)`, whose answer [`string_reply`] takes: a
    /// trapped call is an error naming the export, a null pointer the empty
    /// string, any other pointer read as by [`read_guest_string`].
    pub fn view_text(&mut self, model: i64, i: i64) -> (r: Result<Option<String>, String>)
        ensures
            !old(self).exports_view_text() ==> (r matches Ok(None)) && *final(self) == *old(self),
            old(self).exports_view_text() ==> text_reply(
                final(self).calls().skip(old(self).calls().len() as int),
                final(self).reads().skip(old(self).reads().len() as int),
                GuestCall::ViewText(model, i),
                "browse__view_text: "@,
                old(self).exports_helpers(),
                old(self).exports_memory(),
                r,
            ),
            extends(final(self).calls(), old(self).calls()),
            final(self).reads().len() >= old(self).reads().len(),
            final(self).reads().take(old(self).reads().len() as int) == old(self).reads(),
            final(self).same_exports(*old(self)),
            final(self).exports_view_text() == old(self).exports_view_text(),
            final(self).exports_label() == old(self).exports_label(),
    {
        if self.view_text.is_none() {
            return Ok(None);
        }
        let ghost before = self.calls@;
        let ghost r0 = self.reads@;
        if let Err(e) = self.refuel("browse__view_text: ") {
            proof {
                assert(self.calls@.skip(before.len() as int) =~= Seq::<(GuestCall, Option<i64>)>::empty());
                assert(self.reads@.skip(r0.len() as int) =~= Seq::<Seq<u8>>::empty());
                assert(self.reads@.take(r0.len() as int) =~= r0);
            }
            return Err(e);
        }
        let call = match self.call_view_text(model, i) {
            Some(Ok(p)) => Ok(p),
            Some(Err(e)) => Err(error_text(&e)),
            None => Err(String::new()),
        };
        let reply = string_reply("browse__view_text: ", call);
        proof {
            assert(self.calls@.take(before.len() as int) =~= before);
            if call is Err {
                lemma_concat_prefix("browse__view_text: "@, call->Err_0@);
            }
        }
        self.finish_text(reply, Ghost(before), Ghost(r0))
    }

    /// Read the view of `model`: its length (a negative length reads as no
    /// ops), then each packed op in order, with the guest's text for it when
    /// the guest exports view text (else the text the opcode's vocabulary
    /// code names); the first failing call ends the read with its error.
    pub fn read_view(&mut self, model: i64) -> (r: Result<Vec<Op>, String>)
        ensures
            view_read(
                final(self).calls().skip(old(self).calls().len() as int),
                final(self).reads().skip(old(self).reads().len() as int),
                model,
                old(self).exports_view_text(),
                old(self).exports_helpers(),
                old(self).exports_memory(),
                ops_view(r),
            ),
            extends(final(self).calls(), old(self).calls()),
            final(self).reads().len() >= old(self).reads().len(),
            final(self).reads().take(old(self).reads().len() as int) == old(self).reads(),
            final(self).same_exports(*old(self)),
            final(self).exports_view_text() == old(self).exports_view_text(),
            final(self).exports_label() == old(self).exports_label(),
    {
        let ghost before = self.calls@;
        let ghost r0 = self.reads@;
        let ghost text = self.exports_view_text();
        let ghost helpers = self.exports_helpers();
        let ghost memory = self.exports_memory();
        let len = match self.view_len(model) {
            Ok(n) => n,
            Err(e) => {
                proof {
                    if self.calls@.len() == before.len() {
                        assert(self.calls@.skip(before.len() as int) =~= Seq::<(GuestCall, Option<i64>)>::empty());
                    } else {
                        assert(self.calls@.skip(before.len() as int) =~= seq![self.calls@.last()]);
                    }
                    assert(self.calls@.take(before.len() as int) =~= before);
                    assert(self.reads@.skip(r0.len() as int) =~= Seq::<Seq<u8>>::empty());
                    assert(self.reads@.take(r0.len() as int) =~= r0);
                    lemma_extends_take(self.calls@, before);
                }
                return Err(e);
            },
        };
        let ghost mid = self.calls@;
        let ghost base = mid.len() as int;
        proof {
            assert(mid.take(before.len() as int) =~= before);
            lemma_extends_take(mid, before);
            assert(mid.skip(base) =~= Seq::<(GuestCall, Option<i64>)>::empty());
            assert(self.reads@.skip(r0.len() as int) =~= Seq::<Seq<u8>>::empty());
            assert(self.reads@.take(r0.len() as int) =~= r0);
        }
        let use_guest_text = self.has_view_text();
        let mut ops: Vec<Op> = Vec::new();
        let mut i: i64 = 0;
        let ghost mut starts: Seq<int> = seq![0int];
        let ghost mut rstarts: Seq<int> = seq![0int];
        let ghost mut texts: Seq<String> = Seq::empty();
        while i < len
            invariant
                before == old(self).calls@,
                r0 == old(self).reads@,
                text == old(self).exports_view_text(),
                helpers == old(self).exports_helpers(),
                memory == old(self).exports_memory(),
                base == mid.len(),
                view_so_far(before, r0, mid, self.calls@, self.reads@, model, len, text, helpers, memory, starts, rstarts, texts, ops@),
                0 <= i,
                len >= 0 ==> i <= len,
                len < 0 ==> i == 0,
                ops@.len() == i,
                self.same_exports(*old(self)),
                self.exports_view_text() == old(self).exports_view_text(),
                self.exports_label() == old(self).exports_label(),
                self.exports_helpers() == old(self).exports_helpers(),
                self.exports_memory() == old(self).exports_memory(),
                use_guest_text == self.exports_view_text(),
            decreases len - i,
        {
            let ghost c0 = self.calls@;
            let ghost q0 = self.reads@;
            let packed = match self.view_at(model, i) {
                Ok(p) => p,
                Err(e) => {
                    proof {
                        let chunk = self.calls@.skip(c0.len() as int);
                        if self.calls@.len() == c0.len() {
                            assert(chunk =~= Seq::<(GuestCall, Option<i64>)>::empty());
                        } else {
                            assert(self.calls@.take(c0.len() as int) =~= c0);
                            assert(chunk =~= seq![self.calls@.last()]);
                        }
                        assert(self.calls@.take(c0.len() as int) =~= c0);
                        lemma_extends_take(self.calls@, c0);
                        assert(self.reads@.skip(q0.len() as int) =~= Seq::<Seq<u8>>::empty());
                        assert(self.reads@.take(q0.len() as int) =~= q0);
                        lemma_view_failed(
                            self.calls@, self.reads@, before, r0, mid, c0, q0, model, len, text, helpers,
                            memory, starts, rstarts, texts, ops@, e,
                        );
                    }
                    return Err(e);
                },
            };
            let ghost c1 = self.calls@;
            proof {
                assert(c1.take(c0.len() as int) =~= c0);
                lemma_extends_take(c1, c0);
            }
            let ghost mut guest_text: String = vstd::pervasive::arbitrary();
            let op = if use_guest_text {
                let decoded = Op::decode_packed(packed);
                let ghost flag = decoded.1;
                let mut op = decoded.0;
                let ghost op0 = op;
                let text_read = self.view_text(model, i);
                proof {
                    lemma_extends_trans2(self.calls@, c1, c0);
                    assert(self.calls@.skip(c0.len() as int).skip(1) =~= self.calls@.skip(c1.len() as int));
                    assert(self.calls@.skip(c0.len() as int)[0] == c1.last()) by {
                        assert(self.calls@[c0.len() as int] == c1[c0.len() as int]);
                    }
                    assert(self.reads@.take(q0.len() as int) =~= q0);
                }
                match text_read {
                    Ok(Some(t)) => {
                        proof {
                            guest_text = t;
                        }
                        op.apply_guest_text(t);
                        proof {
                            lemma_retext(packed, op0, flag, op, guest_text@);
                        }
                    },
                    Ok(None) => {},
                    Err(e) => {
                        proof {
                            lemma_view_failed(
                                self.calls@, self.reads@, before, r0, mid, c0, q0, model, len, text, helpers,
                                memory, starts, rstarts, texts, ops@, e,
                            );
                        }
                        return Err(e);
                    },
                }
                op
            } else {
                let op = Op::decode(packed);
                proof {
                    assert(self.calls@.skip(c0.len() as int) =~= seq![c1.last()]);
                    assert(self.reads@.skip(q0.len() as int) =~= Seq::<Seq<u8>>::empty());
                    assert(self.reads@.take(q0.len() as int) =~= q0);
                }
                op
            };
            proof {
                lemma_view_grew(
                    self.calls@, self.reads@, before, r0, mid, c0, q0, model, len, text, helpers, memory, starts,
                    rstarts, texts, ops@, guest_text, op,
                );
                starts = starts.push(self.calls@.len() - base);
                rstarts = rstarts.push(self.reads@.len() - r0.len());
                texts = texts.push(guest_text);
            }
            ops.push(op);
            i += 1;
        }
        proof {
            lemma_extends_index(self.calls@, mid, before);
            let seg = self.calls@.skip(before.len() as int);
            assert(seg.skip(1) =~= self.calls@.skip(base));
            assert(seg[0] == mid.last());
            assert(ops_cover(seg.skip(1), self.reads@.skip(r0.len() as int), model, text, helpers, memory, ops@));
        }
        Ok(ops)
    }

    /// The guest's chrome label `id`: `None` when the guest does not export
    /// `browse__label`; otherwise one call of the export with the low 32 bits
    /// of `id`, whose answer [`string_reply`] takes as for
    /// [`Session::view_text`].
    pub fn label(&mut self, id: i64) -> (r: Result<Option<String>, String>)
        ensures
            !old(self).exports_label() ==> (r matches Ok(None)) && *final(self) == *old(self),
            old(self).exports_label() ==> text_reply(
                final(self).calls().skip(old(self).calls().len() as int),
                final(self).reads().skip(old(self).reads().len() as int),
                GuestCall::Label(id as i32),
                "browse__label: "@,
                old(self).exports_helpers(),
                old(self).exports_memory(),
                r,
            ),
            extends(final(self).calls(), old(self).calls()),
            final(self).reads().len() >= old(self).reads().len(),
            final(self).reads().take(old(self).reads().len() as int) == old(self).reads(),
            final(self).same_exports(*old(self)),
            final(self).exports_view_text() == old(self).exports_view_text(),
            final(self).exports_label() == old(self).exports_label(),
    {
        if self.label.is_none() {
            return Ok(None);
        }
        let ghost before = self.calls@;
        let ghost r0 = self.reads@;
        if let Err(e) = self.refuel("browse__label: ") {
            proof {
                assert(self.calls@.skip(before.len() as int) =~= Seq::<(GuestCall, Option<i64>)>::empty());
                assert(self.reads@.skip(r0.len() as int) =~= Seq::<Seq<u8>>::empty());
                assert(self.reads@.take(r0.len() as int) =~= r0);
            }
            return Err(e);
        }
        let call = match self.call_label(id as i32) {
            Some(Ok(p)) => Ok(p),
            Some(Err(e)) => Err(error_text(&e)),
            None => Err(String::new()),
        };
        let reply = string_reply("browse__label: ", call);
        proof {
            assert(self.calls@.take(before.len() as int) =~= before);
            if call is Err {
                lemma_concat_prefix("browse__label: "@, call->Err_0@);
            }
        }
        self.finish_text(reply, Ghost(before), Ghost(r0))
    }

    /// The rest of a string export's reply after its one recorded call:
    /// an error or a null pointer is the result as it stands, any other
    /// pointer is read by [`Session::read_string`].
    fn finish_text(
        &mut self,
        reply: Result<Option<i32>, String>,
        Ghost(before): Ghost<Seq<(GuestCall, Option<i64>)>>,
        Ghost(r0): Ghost<Seq<Seq<u8>>>,
    ) -> (r: Result<Option<String>, String>)
        requires
            old(self).calls().len() == before.len() + 1,
            old(self).calls().take(before.len() as int) == before,
            old(self).reads() == r0,
            match old(self).calls().last().1 {
                None => reply matches Err(e) && has_prefix(e@, text_prefix(old(self).calls().last().0)),
                Some(p) => if p == 0 {
                    reply == Ok::<Option<i32>, String>(None)
                } else {
                    reply == Ok::<Option<i32>, String>(Some(p as i32))
                },
            },
        ensures
            text_reply(
                final(self).calls().skip(before.len() as int),
                final(self).reads().skip(r0.len() as int),
                old(self).calls().last().0,
                text_prefix(old(self).calls().last().0),
                old(self).exports_helpers(),
                old(self).exports_memory(),
                r,
            ),
            extends(final(self).calls(), before),
            final(self).reads().len() >= r0.len(),
            final(self).reads().take(r0.len() as int) == r0,
            final(self).same_exports(*old(self)),
            final(self).exports_view_text() == old(self).exports_view_text(),
            final(self).exports_label() == old(self).exports_label(),
    {
        let ghost mid = self.calls@;
        proof {
            assert forall|k: int| 0 <= k < before.len() implies #[trigger] mid[k] == before[k] by {
                assert(mid.take(before.len() as int)[k] == mid[k]);
            }
        }
        match reply {
            Err(e) => {
                proof {
                    assert(self.calls@.skip(before.len() as int) =~= seq![mid.last()]);
                    assert(self.reads@.skip(r0.len() as int) =~= Seq::<Seq<u8>>::empty());
                    assert(self.reads@.take(r0.len() as int) =~= r0);
                }
                Err(e)
            },
            Ok(None) => {
                proof {
                    assert(self.calls@.skip(before.len() as int) =~= seq![mid.last()]);
                    assert(self.reads@.skip(r0.len() as int) =~= Seq::<Seq<u8>>::empty());
                    assert(self.reads@.take(r0.len() as int) =~= r0);
                }
                Ok(Some(String::new()))
            },
            Ok(Some(p)) => {
                let read = self.read_string(p);
                proof {
                    let seg = self.calls@.skip(before.len() as int);
                    assert(seg.skip(1) =~= self.calls@.skip(mid.len() as int));
                    assert(seg[0] == mid.last()) by {
                        assert(self.calls@[before.len() as int] == mid[before.len() as int]);
                    }
                    assert forall|k: int| 0 <= k < before.len() implies #[trigger] self.calls@[k] == before[k] by {
                        assert(self.calls@[k] == mid[k]);
                    }
                }
                match read {
                    Ok(s) => Ok(Some(s)),
                    Err(e) => Err(e),
                }
            },
        }
    }
}

/// The error prefix naming a string export.
pub open spec fn text_prefix(call: GuestCall) -> Seq<char> {
    match call {
        GuestCall::Label(_) => "browse__label: "@,
        _ => "browse__view_text: "@,
    }
}

/// What reading the string at `ptr` out of memory bytes `mem` without the
/// runtime's helpers gives: the length-prefixed layout when it decodes, else
/// the tagged layout when it decodes, else an error naming the pointer.
pub open spec fn fallback_read(r: Result<String, String>, mem: Seq<u8>, ptr: int) -> bool {
    if span_decodes(mem, len_prefixed_span(mem, ptr)) {
        span_outcome(r, mem, len_prefixed_span(mem, ptr), ""@)
    } else if span_decodes(mem, tagged_span(mem, ptr)) {
        span_outcome(r, mem, tagged_span(mem, ptr), ""@)
    } else {
        r matches Err(m) && m@ == undecodable_message(ptr)
    }
}

/// What a string read at `ptr` gives, from the calls `seg` it made and the
/// memory snapshots `reads` it took, when the guest exports both string
/// helpers (`helpers`) and a memory (`memory`):
/// - a null or negative pointer is the empty string, with nothing asked;
/// - without a memory, the no-memory error, with nothing asked;
/// - with both helpers, the length helper is asked for `ptr`, then (when it
///   answered) the data helper; a failed answer is an error starting with
///   `string_len: ` or `string_data: `; otherwise the bytes the helpers name
///   in the memory read are decoded;
/// - without them, the memory read is decoded by [`fallback_read`].
pub open spec fn string_read(
    seg: Seq<(GuestCall, Option<i64>)>,
    reads: Seq<Seq<u8>>,
    ptr: i32,
    helpers: bool,
    memory: bool,
    r: Result<String, String>,
) -> bool {
    if ptr <= 0 {
        seg.len() == 0 && reads.len() == 0 && (r matches Ok(s) && s@.len() == 0)
    } else if !memory {
        seg.len() == 0 && reads.len() == 0 && (r matches Err(m) && m@ == no_memory_message())
    } else if helpers {
        &&& reads.len() == 1
        &&& seg.len() <= 2
        &&& seg.len() >= 1 ==> seg[0].0 == GuestCall::StringLen(ptr)
        &&& seg.len() == 2 ==> seg[0].1 is Some && seg[1].0 == GuestCall::StringData(ptr)
        &&& if seg.len() == 0 || seg[0].1 is None {
            r matches Err(m) && has_prefix(m@, "string_len: "@)
        } else if seg.len() == 1 || seg[1].1 is None {
            r matches Err(m) && has_prefix(m@, "string_data: "@)
        } else {
            span_outcome(
                r,
                reads[0],
                helper_span(reads[0].len(), seg[1].1->0 as int, seg[0].1->0 as int),
                "guest string utf8: "@,
            )
        }
    } else {
        seg.len() == 0 && reads.len() == 1 && fallback_read(r, reads[0], ptr as int)
    }
}

/// What a call of a string-returning export gives, from the calls `seg` it
/// made and the memory snapshots `reads` it took (`helpers` and `memory` say
/// what the guest exports):
/// - no call when the fuel could not be set, and an error starting with
///   `prefix`;
/// - else one call `call` first; when it trapped, nothing more and an error
///   starting with `prefix`; when it answered a null pointer, nothing more and
///   the empty string; when it answered another pointer, the string read at
///   that pointer by the calls and reads after it (see [`string_read`]).
pub open spec fn text_reply(
    seg: Seq<(GuestCall, Option<i64>)>,
    reads: Seq<Seq<u8>>,
    call: GuestCall,
    prefix: Seq<char>,
    helpers: bool,
    memory: bool,
    r: Result<Option<String>, String>,
) -> bool {
    if seg.len() == 0 {
        reads.len() == 0 && (r matches Err(e) && has_prefix(e@, prefix))
    } else {
        &&& seg[0].0 == call
        &&& match seg[0].1 {
            None => seg.len() == 1 && reads.len() == 0 && (r matches Err(e) && has_prefix(e@, prefix)),
            Some(p) => if p == 0 {
                seg.len() == 1 && reads.len() == 0 && (r matches Ok(Some(s)) && s@.len() == 0)
            } else {
                match r {
                    Ok(Some(s)) => string_read(seg.skip(1), reads, p as i32, helpers, memory, Ok(s)),
                    Err(e) => string_read(seg.skip(1), reads, p as i32, helpers, memory, Err(e)),
                    Ok(None) => false,
                }
            },
        }
    }
}

/// The text an op decoded from `packed` has before any guest text: a
/// button's vocabulary label, else nothing.
pub open spec fn packed_text(packed: i64) -> Seq<char> {
    if trem(packed as int, 16) == 4 {
        legacy_text(packed)
    } else {
        Seq::empty()
    }
}

/// `op` is the packed op `packed` with the guest's `text` in its text slot
/// when that text is not empty.
pub open spec fn guest_op(packed: i64, text: Seq<char>, op: Op) -> bool {
    decodes_to(
        packed,
        op,
        op.carries_text(),
        if text.len() > 0 {
            text
        } else {
            packed_text(packed)
        },
    )
}

/// The calls `chunk` and memory reads `rchunk` of reading op `i` of the view
/// of `model` gave `op`: `browse__view_at` answered a packed op; without
/// guest text (`text`), `op` is its decoding with the vocabulary text; with
/// it, `browse__view_text` gave `guest_text` (see [`text_reply`]) and `op` is
/// the packed op with that text.
pub open spec fn op_read(
    chunk: Seq<(GuestCall, Option<i64>)>,
    rchunk: Seq<Seq<u8>>,
    model: i64,
    i: int,
    text: bool,
    helpers: bool,
    memory: bool,
    guest_text: String,
    op: Op,
) -> bool {
    &&& chunk.len() >= 1
    &&& chunk[0].0 == GuestCall::ViewAt(model, i as i64)
    &&& chunk[0].1 is Some
    &&& if text {
        &&& text_reply(
            chunk.skip(1),
            rchunk,
            GuestCall::ViewText(model, i as i64),
            "browse__view_text: "@,
            helpers,
            memory,
            Ok(Some(guest_text)),
        )
        &&& guest_op(chunk[0].1->0, guest_text@, op)
    } else {
        &&& chunk.len() == 1
        &&& rchunk.len() == 0
        &&& decodes_to(chunk[0].1->0, op, op.carries_text(), legacy_text(chunk[0].1->0))
    }
}

/// The calls `chunk` and memory reads `rchunk` of reading op `i` of the view
/// of `model` ended the read with error `e`: no call (the fuel could not be
/// set) or a trapped call of `browse__view_at`, with an error naming it; or,
/// with guest text, `browse__view_text` failed with `e` (see
/// [`text_reply`]).
pub open spec fn op_failed(
    chunk: Seq<(GuestCall, Option<i64>)>,
    rchunk: Seq<Seq<u8>>,
    model: i64,
    i: int,
    text: bool,
    helpers: bool,
    memory: bool,
    e: String,
) -> bool {
    if chunk.len() == 0 || chunk[0].1 is None {
        &&& chunk.len() <= 1
        &&& chunk.len() == 1 ==> chunk[0].0 == GuestCall::ViewAt(model, i as i64)
        &&& rchunk.len() == 0
        &&& has_prefix(e@, "browse__view_at: "@)
    } else {
        &&& chunk[0].0 == GuestCall::ViewAt(model, i as i64)
        &&& text
        &&& text_reply(
            chunk.skip(1),
            rchunk,
            GuestCall::ViewText(model, i as i64),
            "browse__view_text: "@,
            helpers,
            memory,
            Err(e),
        )
    }
}

/// The calls `seg` and memory reads `reads` are cut at `starts` and
/// `rstarts` into one piece per op, and piece `k` read op `k` as `ops[k]`
/// with guest text `texts[k]` (see [`op_read`]).
pub open spec fn ops_read(
    seg: Seq<(GuestCall, Option<i64>)>,
    reads: Seq<Seq<u8>>,
    model: i64,
    text: bool,
    helpers: bool,
    memory: bool,
    starts: Seq<int>,
    rstarts: Seq<int>,
    texts: Seq<String>,
    ops: Seq<Op>,
) -> bool {
    &&& starts.len() == ops.len() + 1
    &&& rstarts.len() == ops.len() + 1
    &&& texts.len() == ops.len()
    &&& starts[0] == 0
    &&& rstarts[0] == 0
    &&& starts.last() <= seg.len()
    &&& rstarts.last() <= reads.len()
    &&& forall|j: int, k: int| 0 <= j <= k < starts.len() ==> starts[j] <= starts[k]
    &&& forall|j: int, k: int| 0 <= j <= k < rstarts.len() ==> rstarts[j] <= rstarts[k]
    &&& forall|k: int|
        0 <= k < ops.len() ==> #[trigger] op_read(
            seg.subrange(starts[k], starts[k + 1]),
            reads.subrange(rstarts[k], rstarts[k + 1]),
            model,
            k,
            text,
            helpers,
            memory,
            texts[k],
            ops[k],
        )
}

/// What reading the view of `model` gives, from the calls `seg` and memory
/// reads `reads` it made: `browse__view_len` is asked first (an error naming
/// it when no call could be made or the call trapped); for a length `len`,
/// the read gives `max(len, 0)` ops, each read by its own calls in order
/// (see [`ops_read`]), which use up all the calls and reads; or it stops at
/// the first op whose read failed, with that error (see [`op_failed`]).
pub open spec fn view_read(
    seg: Seq<(GuestCall, Option<i64>)>,
    reads: Seq<Seq<u8>>,
    model: i64,
    text: bool,
    helpers: bool,
    memory: bool,
    r: Result<Seq<Op>, String>,
) -> bool {
    if seg.len() == 0 || seg[0].1 is None {
        &&& seg.len() <= 1
        &&& seg.len() == 1 ==> seg[0].0 == GuestCall::ViewLen(model)
        &&& reads.len() == 0
        &&& r matches Err(e) && has_prefix(e@, "browse__view_len: "@)
    } else {
        let len = if seg[0].1->0 < 0 {
            0
        } else {
            seg[0].1->0 as int
        };
        &&& seg[0].0 == GuestCall::ViewLen(model)
        &&& match r {
            Ok(ops) => ops.len() == len && ops_cover(seg.skip(1), reads, model, text, helpers, memory, ops),
            Err(e) => ops_then_failed(seg.skip(1), reads, model, len, text, helpers, memory, e),
        }
    }
}

/// `p` followed by anything begins with `p`.
proof fn lemma_concat_prefix(p: Seq<char>, e: Seq<char>)
    ensures
        has_prefix(p + e, p),
{
    assert((p + e).subrange(0, p.len() as int) =~= p);
}

/// A record that extends `mid`, which is `before` with one more call,
/// extends `before` and keeps that call next.
proof fn lemma_extends_index(
    a: Seq<(GuestCall, Option<i64>)>,
    mid: Seq<(GuestCall, Option<i64>)>,
    before: Seq<(GuestCall, Option<i64>)>,
)
    requires
        mid.len() == before.len() + 1,
        mid.take(before.len() as int) == before,
        extends(a, mid),
    ensures
        extends(a, before),
        a.len() > before.len(),
        a[before.len() as int] == mid.last(),
{
    assert forall|k: int| 0 <= k < before.len() implies #[trigger] a[k] == before[k] by {
        assert(a[k] == mid[k]);
        assert(mid.take(before.len() as int)[k] == mid[k]);
    }
    assert(a[before.len() as int] == mid[before.len() as int]);
}

/// Extending is transitive.
proof fn lemma_extends_trans2(
    a: Seq<(GuestCall, Option<i64>)>,
    c1: Seq<(GuestCall, Option<i64>)>,
    mid: Seq<(GuestCall, Option<i64>)>,
)
    requires
        extends(c1, mid),
        extends(a, c1),
    ensures
        extends(a, mid),
{
    assert forall|k: int| 0 <= k < mid.len() implies #[trigger] a[k] == mid[k] by {
        assert(a[k] == c1[k]);
    }
}


/// The calls `seg` and memory reads `reads` are used up, in order, by
/// reading `ops` (see [`ops_read`]).
pub open spec fn ops_cover(
    seg: Seq<(GuestCall, Option<i64>)>,
    reads: Seq<Seq<u8>>,
    model: i64,
    text: bool,
    helpers: bool,
    memory: bool,
    ops: Seq<Op>,
) -> bool {
    exists|starts: Seq<int>, rstarts: Seq<int>, texts: Seq<String>|
        #[trigger] ops_read(seg, reads, model, text, helpers, memory, starts, rstarts, texts, ops)
            && starts.last() == seg.len() && rstarts.last() == reads.len()
}

/// The calls `seg` and memory reads `reads` read some ops, fewer than `len`
/// (see [`ops_read`]), and the rest of them is the failed read of the next
/// op, with error `e` (see [`op_failed`]).
pub open spec fn ops_then_failed(
    seg: Seq<(GuestCall, Option<i64>)>,
    reads: Seq<Seq<u8>>,
    model: i64,
    len: int,
    text: bool,
    helpers: bool,
    memory: bool,
    e: String,
) -> bool {
    exists|starts: Seq<int>, rstarts: Seq<int>, texts: Seq<String>, ops: Seq<Op>|
        #[trigger] ops_read(seg, reads, model, text, helpers, memory, starts, rstarts, texts, ops)
            && ops.len() < len && op_failed(
            seg.skip(starts.last()),
            reads.skip(rstarts.last()),
            model,
            ops.len() as int,
            text,
            helpers,
            memory,
            e,
        )
}

/// A view read's result with its ops taken as a sequence.
pub open spec fn ops_view(r: Result<Vec<Op>, String>) -> Result<Seq<Op>, String> {
    match r {
        Ok(ops) => Ok(ops@),
        Err(e) => Err(e),
    }
}

/// A record `a` that begins with `b` extends it.
proof fn lemma_extends_take(a: Seq<(GuestCall, Option<i64>)>, b: Seq<(GuestCall, Option<i64>)>)
    requires
        a.len() >= b.len(),
        a.take(b.len() as int) == b,
    ensures
        extends(a, b),
{
    assert forall|k: int| 0 <= k < b.len() implies #[trigger] a[k] == b[k] by {
        assert(a.take(b.len() as int)[k] == a[k]);
    }
}

/// Putting the guest's text into a decoded op gives the op with that text.
proof fn lemma_retext(packed: i64, op0: Op, flag: bool, op: Op, t: Seq<char>)
    requires
        decodes_to(packed, op0, flag, packed_text(packed)),
        op.same_but_text(op0),
        op.carries_text() == op0.carries_text(),
        op.text_of() == if op0.carries_text() && t.len() > 0 {
            t
        } else {
            op0.text_of()
        },
    ensures
        guest_op(packed, t, op),
{
}

/// The op reads so far still stand when more calls and reads follow them.
proof fn lemma_ops_read_extend(
    seg: Seq<(GuestCall, Option<i64>)>,
    seg2: Seq<(GuestCall, Option<i64>)>,
    rs: Seq<Seq<u8>>,
    rs2: Seq<Seq<u8>>,
    model: i64,
    text: bool,
    helpers: bool,
    memory: bool,
    starts: Seq<int>,
    rstarts: Seq<int>,
    texts: Seq<String>,
    ops: Seq<Op>,
)
    requires
        ops_read(seg, rs, model, text, helpers, memory, starts, rstarts, texts, ops),
        extends(seg2, seg),
        rs2.len() >= rs.len(),
        rs2.take(rs.len() as int) == rs,
    ensures
        ops_read(seg2, rs2, model, text, helpers, memory, starts, rstarts, texts, ops),
{
    assert forall|j: int| 0 <= j < rs.len() implies #[trigger] rs2[j] == rs[j] by {
        assert(rs2.take(rs.len() as int)[j] == rs2[j]);
    }
    assert forall|k: int| 0 <= k < ops.len() implies #[trigger] op_read(
        seg2.subrange(starts[k], starts[k + 1]),
        rs2.subrange(rstarts[k], rstarts[k + 1]),
        model,
        k,
        text,
        helpers,
        memory,
        texts[k],
        ops[k],
    ) by {
        assert(starts[k] <= starts[k + 1] <= starts.last());
        assert(rstarts[k] <= rstarts[k + 1] <= rstarts.last());
        assert(seg2.subrange(starts[k], starts[k + 1]) =~= seg.subrange(starts[k], starts[k + 1]));
        assert(rs2.subrange(rstarts[k], rstarts[k + 1]) =~= rs.subrange(rstarts[k], rstarts[k + 1]));
    }
}

/// The facts that hold through a view read: the length was asked first and
/// answered `len`, and the ops read so far cover the calls and reads made
/// up to `c0` and `q0`.
pub open spec fn view_so_far(
    before: Seq<(GuestCall, Option<i64>)>,
    r0: Seq<Seq<u8>>,
    mid: Seq<(GuestCall, Option<i64>)>,
    c0: Seq<(GuestCall, Option<i64>)>,
    q0: Seq<Seq<u8>>,
    model: i64,
    len: i64,
    text: bool,
    helpers: bool,
    memory: bool,
    starts: Seq<int>,
    rstarts: Seq<int>,
    texts: Seq<String>,
    ops: Seq<Op>,
) -> bool {
    &&& mid.len() == before.len() + 1
    &&& mid.take(before.len() as int) == before
    &&& mid.last() == (GuestCall::ViewLen(model), Some(len))
    &&& extends(c0, mid)
    &&& q0.len() >= r0.len()
    &&& q0.take(r0.len() as int) == r0
    &&& ops_read(c0.skip(mid.len() as int), q0.skip(r0.len() as int), model, text, helpers, memory, starts, rstarts, texts, ops)
    &&& starts.last() == c0.len() - mid.len()
    &&& rstarts.last() == q0.len() - r0.len()
}

/// A view read that had read `ops` by `c0` and `q0` and then failed on the
/// next op with `e` is a failed read of the view (see [`view_read`]).
proof fn lemma_view_failed(
    calls: Seq<(GuestCall, Option<i64>)>,
    reads: Seq<Seq<u8>>,
    before: Seq<(GuestCall, Option<i64>)>,
    r0: Seq<Seq<u8>>,
    mid: Seq<(GuestCall, Option<i64>)>,
    c0: Seq<(GuestCall, Option<i64>)>,
    q0: Seq<Seq<u8>>,
    model: i64,
    len: i64,
    text: bool,
    helpers: bool,
    memory: bool,
    starts: Seq<int>,
    rstarts: Seq<int>,
    texts: Seq<String>,
    ops: Seq<Op>,
    e: String,
)
    requires
        view_so_far(before, r0, mid, c0, q0, model, len, text, helpers, memory, starts, rstarts, texts, ops),
        ops.len() < len,
        extends(calls, c0),
        reads.len() >= q0.len(),
        reads.take(q0.len() as int) == q0,
        op_failed(calls.skip(c0.len() as int), reads.skip(q0.len() as int), model, ops.len() as int, text, helpers, memory, e),
    ensures
        view_read(calls.skip(before.len() as int), reads.skip(r0.len() as int), model, text, helpers, memory, Err(e)),
        extends(calls, before),
        reads.len() >= r0.len(),
        reads.take(r0.len() as int) == r0,
{
    lemma_extends_trans2(calls, c0, mid);
    lemma_extends_index(calls, mid, before);
    let seg = calls.skip(before.len() as int);
    let rs = reads.skip(r0.len() as int);
    assert forall|j: int| 0 <= j < q0.len() implies #[trigger] reads[j] == q0[j] by {
        assert(reads.take(q0.len() as int)[j] == reads[j]);
    }
    assert forall|j: int| 0 <= j < r0.len() implies #[trigger] q0[j] == r0[j] by {
        assert(q0.take(r0.len() as int)[j] == q0[j]);
    }
    assert(reads.take(r0.len() as int) =~= r0);
    assert(seg.skip(1) =~= calls.skip(mid.len() as int));
    assert(seg[0] == mid.last());
    assert(extends(calls.skip(mid.len() as int), c0.skip(mid.len() as int))) by {
        assert forall|k: int| 0 <= k < c0.skip(mid.len() as int).len() implies #[trigger] calls.skip(mid.len() as int)[k] == c0.skip(mid.len() as int)[k] by {
            assert(calls[mid.len() + k] == c0[mid.len() + k]);
        }
    }
    assert(rs.take(q0.skip(r0.len() as int).len() as int) =~= q0.skip(r0.len() as int));
    lemma_ops_read_extend(
        c0.skip(mid.len() as int), seg.skip(1), q0.skip(r0.len() as int), rs, model, text, helpers, memory,
        starts, rstarts, texts, ops,
    );
    assert(seg.skip(1).skip(starts.last()) =~= calls.skip(c0.len() as int));
    assert(rs.skip(rstarts.last()) =~= reads.skip(q0.len() as int));
    assert(ops_read(seg.skip(1), rs, model, text, helpers, memory, starts, rstarts, texts, ops));
    assert(ops_then_failed(seg.skip(1), rs, model, if len < 0 { 0 } else { len as int }, text, helpers, memory, e));
}

/// A view read that had read `ops` by `c0` and `q0` and then read one more
/// op `op` by `calls` and `reads` has read `ops` and `op`.
proof fn lemma_view_grew(
    calls: Seq<(GuestCall, Option<i64>)>,
    reads: Seq<Seq<u8>>,
    before: Seq<(GuestCall, Option<i64>)>,
    r0: Seq<Seq<u8>>,
    mid: Seq<(GuestCall, Option<i64>)>,
    c0: Seq<(GuestCall, Option<i64>)>,
    q0: Seq<Seq<u8>>,
    model: i64,
    len: i64,
    text: bool,
    helpers: bool,
    memory: bool,
    starts: Seq<int>,
    rstarts: Seq<int>,
    texts: Seq<String>,
    ops: Seq<Op>,
    g: String,
    op: Op,
)
    requires
        view_so_far(before, r0, mid, c0, q0, model, len, text, helpers, memory, starts, rstarts, texts, ops),
        extends(calls, c0),
        reads.len() >= q0.len(),
        reads.take(q0.len() as int) == q0,
        op_read(calls.skip(c0.len() as int), reads.skip(q0.len() as int), model, ops.len() as int, text, helpers, memory, g, op),
    ensures
        view_so_far(
            before, r0, mid, calls, reads, model, len, text, helpers, memory,
            starts.push(calls.len() - mid.len()), rstarts.push(reads.len() - r0.len()), texts.push(g), ops.push(op),
        ),
{
    lemma_extends_trans2(calls, c0, mid);
    let seg = calls.skip(mid.len() as int);
    let rs = reads.skip(r0.len() as int);
    let seg0 = c0.skip(mid.len() as int);
    let rs0 = q0.skip(r0.len() as int);
    assert forall|j: int| 0 <= j < q0.len() implies #[trigger] reads[j] == q0[j] by {
        assert(reads.take(q0.len() as int)[j] == reads[j]);
    }
    assert forall|j: int| 0 <= j < r0.len() implies #[trigger] q0[j] == r0[j] by {
        assert(q0.take(r0.len() as int)[j] == q0[j]);
    }
    assert(reads.take(r0.len() as int) =~= r0);
    assert(extends(seg, seg0)) by {
        assert forall|k: int| 0 <= k < seg0.len() implies #[trigger] seg[k] == seg0[k] by {
            assert(calls[mid.len() + k] == c0[mid.len() + k]);
        }
    }
    assert(rs.take(rs0.len() as int) =~= rs0);
    lemma_ops_read_extend(seg0, seg, rs0, rs, model, text, helpers, memory, starts, rstarts, texts, ops);
    let starts2 = starts.push(calls.len() - mid.len());
    let rstarts2 = rstarts.push(reads.len() - r0.len());
    let texts2 = texts.push(g);
    let ops2 = ops.push(op);
    assert(seg.subrange(starts2[ops.len() as int], starts2[ops.len() + 1int]) =~= calls.skip(c0.len() as int));
    assert(rs.subrange(rstarts2[ops.len() as int], rstarts2[ops.len() + 1int]) =~= reads.skip(q0.len() as int));
    assert forall|k: int| 0 <= k < ops2.len() implies #[trigger] op_read(
        seg.subrange(starts2[k], starts2[k + 1]),
        rs.subrange(rstarts2[k], rstarts2[k + 1]),
        model,
        k,
        text,
        helpers,
        memory,
        texts2[k],
        ops2[k],
    ) by {
        if k < ops.len() {
            assert(starts2[k] == starts[k] && starts2[k + 1] == starts[k + 1]);
            assert(rstarts2[k] == rstarts[k] && rstarts2[k + 1] == rstarts[k + 1]);
            assert(texts2[k] == texts[k] && ops2[k] == ops[k]);
        }
    }
    assert forall|j: int, k: int| 0 <= j <= k < starts2.len() implies starts2[j] <= starts2[k] by {
        if k < starts.len() {
            assert(starts2[j] == starts[j] && starts2[k] == starts[k]);
        } else if j < starts.len() {
            assert(starts[j] <= starts.last());
        }
    }
    assert forall|j: int, k: int| 0 <= j <= k < rstarts2.len() implies rstarts2[j] <= rstarts2[k] by {
        if k < rstarts.len() {
            assert(rstarts2[j] == rstarts[j] && rstarts2[k] == rstarts[k]);
        } else if j < rstarts.len() {
            assert(rstarts[j] <= rstarts.last());
        }
    }
}

} // verus!

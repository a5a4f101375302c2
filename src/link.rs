use vstd::prelude::*;
use crate::address::Address;
use ethers::solc::artifacts::BytecodeObject;

verus! {

/// The creation code of a contract as compiled: either plain bytes, or hex
/// text that still holds placeholders, with the fully qualified names of the
/// libraries that the code references.
#[derive(Clone, Debug)]
pub enum Template {
    Linked(Vec<u8>),
    Unlinked(String, Vec<String>),
}

/// Why a template could not be turned into deployable bytes.
#[derive(Clone, Debug)]
pub enum LinkError {
    /// The placeholder of this library is still in the code.
    Unresolved(String),
    /// The code is not valid hex, though no known library placeholder is left.
    Malformed,
}

/// The hex text after the placeholders of library `name` are replaced by
/// the hex form of `addr`.
pub uninterp spec fn linked_text(code: Seq<char>, name: Seq<char>, addr: Seq<u8>) -> Seq<char>;

/// Whether the hex text still holds a placeholder of library `name`.
pub uninterp spec fn has_placeholder(code: Seq<char>, name: Seq<char>) -> bool;

/// The value of a hex digit of either case.
pub open spec fn hex_value(c: char) -> Option<u8> {
    if '0' <= c && c <= '9' {
        Some((c as u32 - 48) as u8)
    } else if 'a' <= c && c <= 'f' {
        Some((c as u32 - 87) as u8)
    } else if 'A' <= c && c <= 'F' {
        Some((c as u32 - 55) as u8)
    } else {
        None
    }
}

/// The text without a leading `0x` or `0X`.
pub open spec fn strip_hex_prefix(s: Seq<char>) -> Seq<char> {
    if s.len() >= 2 && s[0] == '0' && (s[1] == 'x' || s[1] == 'X') {
        s.skip(2)
    } else {
        s
    }
}

/// The bytes that hex text stands for, when it is an even number of hex digits
/// after an optional prefix.
pub open spec fn decode_hex(s: Seq<char>) -> Option<Seq<u8>> {
    let t = strip_hex_prefix(s);
    if t.len() % 2 == 0 && forall|i: int| 0 <= i < t.len() ==> (#[trigger] hex_value(t[i])) is Some {
        Some(
            Seq::new(
                (t.len() / 2) as nat,
                |i: int| (hex_value(t[2 * i]).unwrap() * 16 + hex_value(t[2 * i + 1]).unwrap()) as u8,
            ),
        )
    } else {
        None
    }
}

/// The libraries to link, by name and address.
pub open spec fn libs_view(libs: Seq<(String, Address)>) -> Seq<(Seq<char>, Address)> {
    libs.map_values(|p: (String, Address)| (p.0@, p.1))
}

/// The names of the references.
pub open spec fn refs_view(refs: Seq<String>) -> Seq<Seq<char>> {
    refs.map_values(|n: String| n@)
}

/// The text after linking each library of `libs` in turn.
pub open spec fn link_all(code: Seq<char>, libs: Seq<(Seq<char>, Address)>) -> Seq<char>
    decreases libs.len(),
{
    if libs.len() == 0 {
        code
    } else {
        linked_text(link_all(code, libs.drop_last()), libs.last().0, libs.last().1.bytes@)
    }
}

/// Relies on ethers' `BytecodeObject::link_fully_qualified`, which replaces the
/// placeholders of a fully qualified library name by the library's address.
#[verifier::external_body]
fn link_fully_qualified(code: &String, name: &str, addr: Address) -> (r: String)
    ensures
        r@ == linked_text(code@, name@, addr.bytes@),
{
    let mut object = BytecodeObject::Unlinked(code.clone());
    object.link_fully_qualified(name, ethers::types::Address::from(addr.bytes));
    object.into_unlinked().unwrap_or_default()
}

/// Relies on ethers' `BytecodeObject::contains_fully_qualified_placeholder`.
#[verifier::external_body]
fn contains_placeholder(code: &String, name: &str) -> (r: bool)
    ensures
        r == has_placeholder(code@, name@),
{
    BytecodeObject::Unlinked(code.clone()).contains_fully_qualified_placeholder(name)
}

/// Relies on ethers' `BytecodeObject::resolve`, which turns unlinked code into
/// bytes where the hex decoder of `const-hex` accepts it.
#[verifier::external_body]
fn resolve(code: &String) -> (r: Option<Vec<u8>>)
    ensures
        match decode_hex(code@) {
            Some(b) => r is Some && r->Some_0@ == b,
            None => r is None,
        },
{
    let mut object = BytecodeObject::Unlinked(code.clone());
    object.resolve();
    object.into_bytes().map(|b| b.to_vec())
}

fn copy_bytes(b: &Vec<u8>) -> (r: Vec<u8>)
    ensures
        r@ == b@,
{
    let mut r: Vec<u8> = Vec::new();
    let mut i: usize = 0;
    while i < b.len()
        invariant
            i <= b@.len(),
            r@ == b@.take(i as int),
        decreases b@.len() - i,
    {
        r.push(b[i]);
        proof {
            assert(b@.take(i + 1) =~= b@.take(i as int).push(b@[i as int]));
        }
        i = i + 1;
    }
    proof {
        assert(b@.take(i as int) =~= b@);
    }
    r
}

/// The error names the first of `refs` whose placeholder is left in the text,
/// and is `Malformed` only where none is left.
pub open spec fn names_first_unresolved(text: Seq<char>, refs: Seq<Seq<char>>, e: LinkError) -> bool {
    match e {
        LinkError::Unresolved(n) => exists|i: int|
            0 <= i < refs.len() && n@ == refs[i] && #[trigger] has_placeholder(text, refs[i])
                && forall|k: int| 0 <= k < i ==> !has_placeholder(text, #[trigger] refs[k]),
        LinkError::Malformed => forall|k: int|
            0 <= k < refs.len() ==> !has_placeholder(text, #[trigger] refs[k]),
    }
}

/// The outcome of linking a template against `libs`: the deployable bytes, or
/// the first of the template's own references whose placeholder is left.
pub open spec fn link_result_ok(
    template: Template,
    libs: Seq<(Seq<char>, Address)>,
    r: Result<Vec<u8>, LinkError>,
) -> bool {
    match template {
        Template::Linked(b) => r is Ok && r->Ok_0@ == b@,
        Template::Unlinked(s, names) => match decode_hex(link_all(s@, libs)) {
            Some(b) => r is Ok && r->Ok_0@ == b,
            None => r is Err && names_first_unresolved(link_all(s@, libs), refs_view(names@), r->Err_0),
        },
    }
}

/// Links each library of `libs` into the template, then checks that the
/// result is fully linked; where it is not, names the first of the
/// template's references that is left unresolved.
pub fn link_libraries(template: &Template, libs: &Vec<(String, Address)>) -> (r: Result<Vec<u8>, LinkError>)
    ensures
        link_result_ok(*template, libs_view(libs@), r),
{
    match template {
        Template::Linked(b) => Ok(copy_bytes(b)),
        Template::Unlinked(s, refs) => {
            let mut text = s.clone();
            let mut i: usize = 0;
            while i < libs.len()
                invariant
                    i <= libs@.len(),
                    *template == Template::Unlinked(*s, *refs),
                    text@ == link_all(s@, libs_view(libs@).take(i as int)),
                decreases libs@.len() - i,
            {
                text = link_fully_qualified(&text, libs[i].0.as_str(), libs[i].1);
                proof {
                    assert(libs_view(libs@).take(i + 1).drop_last() =~= libs_view(libs@).take(i as int));
                }
                i = i + 1;
            }
            proof {
                assert(libs_view(libs@).take(i as int) =~= libs_view(libs@));
            }
            match resolve(&text) {
                Some(b) => Ok(b),
                None => {
                    let mut k: usize = 0;
                    while k < refs.len()
                        invariant
                            k <= refs@.len(),
                            *template == Template::Unlinked(*s, *refs),
                            text@ == link_all(s@, libs_view(libs@)),
                            decode_hex(text@) is None,
                            forall|j: int| 0 <= j < k ==> !has_placeholder(text@, #[trigger] refs_view(refs@)[j]),
                        decreases refs@.len() - k,
                    {
                        if contains_placeholder(&text, refs[k].as_str()) {
                            let e = LinkError::Unresolved(refs[k].clone());
                            proof {
                                let names = refs_view(refs@);
                                assert(has_placeholder(text@, names[k as int]));
                                assert(names_first_unresolved(text@, names, e));
                            }
                            return Err(e);
                        }
                        k = k + 1;
                    }
                    Err(LinkError::Malformed)
                },
            }
        },
    }
}

/// When linking succeeds, the linked text is hex digits only: no `_` or `$`
/// of a library placeholder is left in it, and the deployed bytes are what
/// that text encodes.
pub proof fn lemma_linked_code_has_no_placeholder(
    code: String,
    libs: Seq<(Seq<char>, Address)>,
    refs: Vec<String>,
    bytes: Vec<u8>,
)
    requires
        link_result_ok(Template::Unlinked(code, refs), libs, Ok(bytes)),
    ensures
        ({
            let text = link_all(code@, libs);
            &&& decode_hex(text) == Some(bytes@)
            &&& forall|i: int| 0 <= i < text.len() ==> text[i] != '_' && text[i] != '$'
        }),
{
    let text = link_all(code@, libs);
    let t = strip_hex_prefix(text);
    assert forall|i: int| 0 <= i < text.len() implies text[i] != '_' && text[i] != '$' by {
        if t.len() < text.len() {
            if i >= 2 {
                assert(t[i - 2] == text[i]);
                assert(hex_value(t[i - 2]) is Some);
            }
        } else {
            assert(hex_value(t[i]) is Some);
        }
    }
}

} // verus!

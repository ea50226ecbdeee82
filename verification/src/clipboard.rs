//! The clipboard as the X server sees it: atoms, requests and raw bytes.
use crate::text::{slice, to_chars};
use vstd::prelude::*;
#[allow(unused_imports)]
use vstd::utf8::{decode_utf8, valid_utf8};
use x11rb::protocol::xproto::AtomEnum;

verus! {

/// What `String::from_utf8_lossy` makes of some bytes.
pub uninterp spec fn utf8_lossy(bytes: Seq<u8>) -> Seq<char>;

/// Calls `String::from_utf8_lossy`, which depends on the bytes alone. Of bytes
/// that are UTF-8 it gives the characters they encode; what stands in for
/// other bytes is left to the name `utf8_lossy`.
#[verifier::external_body]
fn decode_lossy(bytes: &Vec<u8>) -> (out: String)
    ensures
        out@ == utf8_lossy(bytes@),
        valid_utf8(bytes@) ==> out@ == decode_utf8(bytes@),
{
    String::from_utf8_lossy(bytes.as_slice()).into_owned()
}

/// The predefined atom `AtomEnum::NONE` of `x11rb` as a number: it is 0.
#[verifier::external_body]
fn none_atom() -> (out: u32)
    ensures
        out == NO_ATOM,
{
    u32::from(AtomEnum::NONE)
}

/// The predefined atom `AtomEnum::STRING` of `x11rb` as a number: it is 31.
#[verifier::external_body]
fn string_atom() -> (out: u32)
    ensures
        out == STRING_ATOM,
{
    u32::from(AtomEnum::STRING)
}

/// The atom that stands for no atom.
pub const NO_ATOM: u32 = 0;

/// The predefined type of Latin-1 text.
pub const STRING_ATOM: u32 = 31;

/// The atoms that clipboard exchange speaks of.
#[derive(Debug, Clone, Copy, PartialEq, Eq, Structural)]
pub struct ClipboardAtoms {
    pub clipboard: u32,
    pub primary: u32,
    pub targets: u32,
    pub utf8_string: u32,
    pub text_plain_utf8: u32,
    pub text_plain: u32,
    pub text: u32,
    pub string: u32,
}

/// Another program asks for the selected text.
#[derive(Debug, Clone, Copy, PartialEq, Eq, Structural)]
pub struct SelectionRequest {
    pub selection: u32,
    pub target: u32,
    pub property: u32,
}

/// What is answered to such a request.
#[derive(Debug)]
pub enum SelectionAnswer {
    /// Nothing is handed over.
    Refuse,
    /// The formats on offer are written to a property.
    Targets { property: u32, targets: Vec<u32> },
    /// The text is written to a property of a type.
    Text { property: u32, property_type: u32 },
}

/// The answer in mathematical terms.
#[verifier::ext_equal]
pub enum AnswerModel {
    Refuse,
    Targets { property: u32, targets: Seq<u32> },
    Text { property: u32, property_type: u32 },
}

impl View for SelectionAnswer {
    type V = AnswerModel;

    open spec fn view(&self) -> AnswerModel {
        match *self {
            SelectionAnswer::Refuse => AnswerModel::Refuse,
            SelectionAnswer::Targets { property, targets } => AnswerModel::Targets {
                property,
                targets: targets@,
            },
            SelectionAnswer::Text { property, property_type } => AnswerModel::Text {
                property,
                property_type,
            },
        }
    }
}

/// The formats on offer.
pub open spec fn offered(atoms: ClipboardAtoms) -> Seq<u32> {
    seq![
        atoms.targets,
        atoms.utf8_string,
        atoms.text_plain_utf8,
        atoms.text_plain,
        atoms.text,
        atoms.string,
    ]
}

/// The format is one of those for text.
pub open spec fn is_text_target(atoms: ClipboardAtoms, target: u32) -> bool {
    ||| target == atoms.utf8_string
    ||| target == atoms.text_plain_utf8
    ||| target == atoms.text_plain
    ||| target == atoms.text
    ||| target == atoms.string
}

/// How a request is answered: the clipboard and the primary selection are
/// served as soon as there is a text, in the formats on offer.
pub open spec fn answer(atoms: ClipboardAtoms, request: SelectionRequest, has_text: bool) -> AnswerModel {
    let property = if request.property == 0 {
        request.target
    } else {
        request.property
    };
    if (request.selection != atoms.clipboard && request.selection != atoms.primary) || !has_text {
        AnswerModel::Refuse
    } else if request.target == atoms.targets {
        AnswerModel::Targets { property, targets: offered(atoms) }
    } else if is_text_target(atoms, request.target) {
        AnswerModel::Text {
            property,
            property_type: if request.target == atoms.string {
                STRING_ATOM
            } else {
                atoms.utf8_string
            },
        }
    } else {
        AnswerModel::Refuse
    }
}

/// How a request is answered.
pub fn answer_request(atoms: &ClipboardAtoms, request: &SelectionRequest, has_text: bool) -> (out:
    SelectionAnswer)
    ensures
        out@ == answer(*atoms, *request, has_text),
{
    if request.selection != atoms.clipboard && request.selection != atoms.primary {
        return SelectionAnswer::Refuse;
    }
    if !has_text {
        return SelectionAnswer::Refuse;
    }
    let property: u32 = if request.property == 0 {
        request.target
    } else {
        request.property
    };
    if request.target == atoms.targets {
        let targets: Vec<u32> = vec![
            atoms.targets,
            atoms.utf8_string,
            atoms.text_plain_utf8,
            atoms.text_plain,
            atoms.text,
            atoms.string,
        ];
        assert(targets@ =~= offered(*atoms));
        return SelectionAnswer::Targets { property, targets };
    }
    if request.target == atoms.utf8_string || request.target == atoms.text_plain_utf8
        || request.target == atoms.text_plain || request.target == atoms.text || request.target
        == atoms.string {
        let property_type: u32 = if request.target == atoms.string {
            string_atom()
        } else {
            atoms.utf8_string
        };
        return SelectionAnswer::Text { property, property_type };
    }
    SelectionAnswer::Refuse
}

impl SelectionAnswer {
    /// The property that the requesting program is told of: none if nothing
    /// was handed over.
    pub fn notify_property(&self) -> (out: u32)
        ensures
            out == match self@ {
                AnswerModel::Refuse => NO_ATOM,
                AnswerModel::Targets { property, targets } => property,
                AnswerModel::Text { property, property_type } => property,
            },
    {
        match self {
            SelectionAnswer::Refuse => none_atom(),
            SelectionAnswer::Targets { property, targets } => *property,
            SelectionAnswer::Text { property, property_type } => *property,
        }
    }
}

/// Whether a property holds nothing.
pub fn is_none_atom(property: u32) -> (yes: bool)
    ensures
        yes == (property == NO_ATOM),
{
    property == none_atom()
}

/// The text without the NUL characters at its end.
pub open spec fn without_nuls(s: Seq<char>) -> Seq<char>
    decreases s.len(),
{
    if s.len() > 0 && s.last() == '\0' {
        without_nuls(s.drop_last())
    } else {
        s
    }
}

proof fn lemma_without_nuls(s: Seq<char>, k: int)
    requires
        0 <= k <= s.len(),
        forall|j: int| k <= j < s.len() ==> #[trigger] s[j] == '\0',
        k > 0 ==> s[k - 1] != '\0',
    ensures
        without_nuls(s) == s.take(k),
    decreases s.len(),
{
    if k < s.len() {
        let t = s.drop_last();
        assert forall|j: int| k <= j < t.len() implies #[trigger] t[j] == '\0' by {
            assert(t[j] == s[j]);
        }
        lemma_without_nuls(t, k);
        assert(t.take(k) == s.take(k));
    } else {
        assert(s.take(k) == s);
    }
}

/// The text without the NUL characters at its end.
pub fn strip_nuls(text: &str) -> (out: String)
    ensures
        out@ == without_nuls(text@),
{
    let chars = to_chars(text);
    let mut k: usize = chars.len();
    while k > 0 && chars[k - 1] == '\0'
        invariant
            chars@ == text@,
            k <= chars@.len(),
            forall|j: int| k <= j < chars@.len() ==> #[trigger] chars@[j] == '\0',
        decreases k,
    {
        k -= 1;
    }
    proof {
        lemma_without_nuls(text@, k as int);
        assert(text@.take(k as int) == text@.subrange(0, k as int));
    }
    slice(text, 0, k)
}

/// The text that another program handed over as bytes.
pub fn received_text(bytes: &Vec<u8>) -> (out: String)
    ensures
        out@ == without_nuls(utf8_lossy(bytes@)),
        valid_utf8(bytes@) ==> out@ == without_nuls(decode_utf8(bytes@)),
{
    let text = decode_lossy(bytes);
    strip_nuls(text.as_str())
}

/// Every format that is on offer is answered.
pub proof fn law_offers_are_kept(atoms: ClipboardAtoms, request: SelectionRequest)
    requires
        request.selection == atoms.clipboard || request.selection == atoms.primary,
        offered(atoms).contains(request.target),
    ensures
        !(answer(atoms, request, true) is Refuse),
{
    let i = choose|i: int| 0 <= i < offered(atoms).len() && offered(atoms)[i] == request.target;
    assert(request.target == offered(atoms)[i]);
}

/// Only the clipboard and the primary selection are served, only while there is
/// a text, and only in the formats on offer; what is handed over goes to the
/// property asked for, or to one named like the format.
pub proof fn law_requests_are_answered(
    atoms: ClipboardAtoms,
    request: SelectionRequest,
    has_text: bool,
)
    ensures
        ({
            let ours = request.selection == atoms.clipboard || request.selection == atoms.primary;
            let out = answer(atoms, request, has_text);
            &&& !(out is Refuse) <==> ours && has_text && offered(atoms).contains(request.target)
            &&& out is Targets ==> {
                &&& request.target == atoms.targets
                &&& out->Targets_targets == offered(atoms)
                &&& request.property != NO_ATOM ==> out->Targets_property == request.property
                &&& request.property == NO_ATOM ==> out->Targets_property == request.target
            }
            &&& out is Text ==> {
                &&& request.target != atoms.targets
                &&& request.property != NO_ATOM ==> out->Text_property == request.property
                &&& request.property == NO_ATOM ==> out->Text_property == request.target
                &&& request.target == atoms.string ==> out->Text_property_type == STRING_ATOM
                &&& request.target != atoms.string ==> out->Text_property_type == atoms.utf8_string
            }
        }),
        forall|format: u32|
            #[trigger] offered(atoms).contains(format) <==> format == atoms.targets || format
                == atoms.utf8_string || format == atoms.text_plain_utf8 || format
                == atoms.text_plain || format == atoms.text || format == atoms.string,
{
    let all = offered(atoms);
    assert(all.len() == 6);
    assert forall|format: u32| #[trigger] all.contains(format) <==> format == atoms.targets
        || format == atoms.utf8_string || format == atoms.text_plain_utf8 || format
        == atoms.text_plain || format == atoms.text || format == atoms.string by {
        assert(all[0] == atoms.targets && all[1] == atoms.utf8_string && all[2]
            == atoms.text_plain_utf8 && all[3] == atoms.text_plain && all[4] == atoms.text && all[5]
            == atoms.string);
    }
}

/// Text that is received loses the NUL characters at its end, and nothing else.
pub proof fn law_only_nuls_are_stripped(s: Seq<char>) -> (k: int)
    ensures
        0 <= k <= s.len(),
        without_nuls(s) == s.take(k),
        k > 0 ==> s[k - 1] != '\0',
        forall|i: int| k <= i < s.len() ==> #[trigger] s[i] == '\0',
    decreases s.len(),
{
    if s.len() > 0 && s.last() == '\0' {
        let t = s.drop_last();
        let k = law_only_nuls_are_stripped(t);
        assert(t.take(k) =~= s.take(k));
        if k > 0 {
            assert(t[k - 1] == s[k - 1]);
        }
        assert forall|i: int| k <= i < s.len() implies #[trigger] s[i] == '\0' by {
            if i < t.len() {
                assert(t[i] == s[i]);
            }
        }
        k
    } else {
        assert(s.take(s.len() as int) =~= s);
        s.len() as int
    }
}

} // verus!

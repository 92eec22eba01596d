//! Stateless validation of change events.
//!
//! Names and descriptions must be non-empty after trimming, under 255
//! grapheme clusters, and free of a small set of forbidden characters;
//! quantities must be positive. Validation is total and side-effect-free,
//! and the [`Validator`] trait lets callers substitute their own rules.

use vstd::prelude::*;
use vstd::string::StrSliceExecFns;

use super::models::bom_change_event::BOMChangeEvent;
use super::models::bom_change_event::BOMChangeEventView;

verus! {

/// The message of a rejected change event.
#[derive(Debug, PartialEq)]
pub struct ValidationError(pub String);

impl View for ValidationError {
    type V = Seq<char>;

    open spec fn view(&self) -> Seq<char> {
        self.0@
    }
}

/// A pluggable acceptance test for values of type `T`.
///
/// `accepts` is the predicate an implementation decides, and `reason` the
/// message it reports for a rejected value; `validate` must answer exactly
/// according to both.
pub trait Validator<T: View> {
    spec fn accepts(&self, data: T::V) -> bool;

    spec fn reason(&self, data: T::V) -> Seq<char>;

    fn validate(&self, data: &T) -> (r: Result<(), ValidationError>)
        ensures
            r.is_ok() <==> self.accepts(data@),
            r matches Err(err) ==> err@ == self.reason(data@),
    ;
}

/// Whether `c` carries the Unicode `White_Space` property, the set of
/// characters that trimming removes.
pub open spec fn is_whitespace_char(c: char) -> bool {
    let n = c as int;
    (9 <= n && n <= 13) || n == 32 || n == 0x85 || n == 0xA0 || n == 0x1680 || (0x2000 <= n && n
        <= 0x200A) || n == 0x2028 || n == 0x2029 || n == 0x202F || n == 0x205F || n == 0x3000
}

fn char_is_whitespace(c: char) -> (r: bool)
    ensures
        r == is_whitespace_char(c),
{
    let n = c as u32;
    (9 <= n && n <= 13) || n == 32 || n == 0x85 || n == 0xA0 || n == 0x1680 || (0x2000 <= n && n
        <= 0x200A) || n == 0x2028 || n == 0x2029 || n == 0x202F || n == 0x205F || n == 0x3000
}

/// Whether `c` is one of the characters a name or description must not hold.
pub open spec fn is_forbidden_char(c: char) -> bool {
    c == '/' || c == '(' || c == ')' || c == '"' || c == '<' || c == '>' || c == '\\' || c == '{'
        || c == '}'
}

fn char_is_forbidden(c: char) -> (r: bool)
    ensures
        r == is_forbidden_char(c),
{
    c == '/' || c == '(' || c == ')' || c == '"' || c == '<' || c == '>' || c == '\\' || c == '{'
        || c == '}'
}

/// The number of extended grapheme clusters of a string; a function of its
/// characters alone.
pub uninterp spec fn grapheme_count(s: Seq<char>) -> int;

/// Relies on `unicode_segmentation::UnicodeSegmentation::graphemes` (with
/// extended clusters) to count the grapheme clusters of a string; the
/// segmentation depends on the string's characters alone.
#[verifier::external_body]
fn count_graphemes(s: &str) -> (r: usize)
    ensures
        r as int == grapheme_count(s@),
{
    unicode_segmentation::UnicodeSegmentation::graphemes(s, true).count()
}

/// What a well-formed name or description is: some character survives
/// trimming, the text stays under 255 grapheme clusters, and no forbidden
/// character occurs.
pub open spec fn valid_string(s: Seq<char>) -> bool {
    &&& exists|i: int| 0 <= i < s.len() && !is_whitespace_char(s[i])
    &&& grapheme_count(s) < 255
    &&& forall|i: int| 0 <= i < s.len() ==> !is_forbidden_char(s[i])
}

/// Whether `s` may serve as a BOM name or description.
pub fn is_valid_string(s: &str) -> (r: bool)
    ensures
        r == valid_string(s@),
{
    let len = s.unicode_len();
    let mut has_content = false;
    let mut has_forbidden = false;
    let mut i: usize = 0;
    while i < len
        invariant
            len == s@.len(),
            0 <= i <= len,
            has_content <==> exists|j: int| 0 <= j < i && !is_whitespace_char(s@[j]),
            has_forbidden <==> exists|j: int| 0 <= j < i && is_forbidden_char(s@[j]),
        decreases len - i,
    {
        let c = s.get_char(i);
        if !char_is_whitespace(c) {
            has_content = true;
        }
        if char_is_forbidden(c) {
            has_forbidden = true;
        }
        i += 1;
    }
    let graphemes = count_graphemes(s);
    has_content && graphemes < 255 && !has_forbidden
}

/// What the standard validator accepts: well-formed strings for name and
/// description changes, positive quantities for component additions and
/// updates, and every removal.
pub open spec fn event_valid(e: BOMChangeEventView) -> bool {
    match e {
        BOMChangeEventView::NameChanged(name) => valid_string(name),
        BOMChangeEventView::DescriptionChanged(description) => valid_string(description),
        BOMChangeEventView::ComponentAdded(_, qty) => qty > 0,
        BOMChangeEventView::ComponentUpdated(_, qty) => qty > 0,
        BOMChangeEventView::ComponentRemoved(_) => true,
    }
}

/// The message the standard validator reports for a rejected event.
pub open spec fn rejection_reason(e: BOMChangeEventView) -> Seq<char> {
    match e {
        BOMChangeEventView::NameChanged(_) => "Invalid name input"@,
        BOMChangeEventView::DescriptionChanged(_) => "Invalid description input"@,
        BOMChangeEventView::ComponentAdded(_, _) => "Quantity must be greater than 0"@,
        BOMChangeEventView::ComponentUpdated(_, _) => "Quantity must be greater than 0"@,
        BOMChangeEventView::ComponentRemoved(_) => Seq::<char>::empty(),
    }
}

/// The standard, stateless rule set of this library.
pub struct BOMChangeEventValidator;

impl Validator<BOMChangeEvent> for BOMChangeEventValidator {
    open spec fn accepts(&self, e: BOMChangeEventView) -> bool {
        event_valid(e)
    }

    open spec fn reason(&self, e: BOMChangeEventView) -> Seq<char> {
        rejection_reason(e)
    }

    fn validate(&self, event: &BOMChangeEvent) -> (r: Result<(), ValidationError>) {
        match event {
            BOMChangeEvent::NameChanged(name) => {
                if is_valid_string(name.as_str()) {
                    Ok(())
                } else {
                    Err(ValidationError("Invalid name input".to_owned()))
                }
            },
            BOMChangeEvent::DescriptionChanged(description) => {
                if is_valid_string(description.as_str()) {
                    Ok(())
                } else {
                    Err(ValidationError("Invalid description input".to_owned()))
                }
            },
            BOMChangeEvent::ComponentAdded(_, qty) => {
                if *qty > 0 {
                    Ok(())
                } else {
                    Err(ValidationError("Quantity must be greater than 0".to_owned()))
                }
            },
            BOMChangeEvent::ComponentUpdated(_, qty) => {
                if *qty > 0 {
                    Ok(())
                } else {
                    Err(ValidationError("Quantity must be greater than 0".to_owned()))
                }
            },
            BOMChangeEvent::ComponentRemoved(_) => Ok(()),
        }
    }
}

/// The validation gate: an event whose string payload holds a forbidden
/// character (a slash, for instance) is rejected by the standard validator.
/// By the reducer's contract, a rejected event leaves the aggregate's
/// mutable fields unchanged and surfaces the validation message.
pub proof fn lemma_validation_gate(e: BOMChangeEventView, payload: Seq<char>, k: int)
    requires
        e == BOMChangeEventView::NameChanged(payload) || e
            == BOMChangeEventView::DescriptionChanged(payload),
        0 <= k < payload.len(),
        is_forbidden_char(payload[k]),
    ensures
        !event_valid(e),
{
    assert(!valid_string(payload)) by {
        if valid_string(payload) {
            assert(!is_forbidden_char(payload[k]));
        }
    }
}

} // verus!

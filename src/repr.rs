//! The directive model: folds directive items into at most one base
//! representation and at most one modifier, and renders the result.

use proc_macro2::Span;
use vstd::prelude::*;

use crate::outside::is_int_literal;
use crate::vocab::{
    base_repr_for, base_repr_name, modifier_text, same_text, BaseRepr, Modifier,
};

verus! {

/// One directive item: an identifier with the arguments written in
/// parentheses after it (none for a bare identifier), each argument as the
/// text of its tokens.
pub struct DirectiveItem {
    pub ident: String,
    pub args: Vec<String>,
    pub span: Span,
}

/// What went wrong with a directive item.
#[derive(Clone, Copy, Debug, PartialEq, Eq, Structural)]
pub enum ErrorKind {
    /// A second base representation was given.
    DuplicateBaseRepr,
    /// A second modifier was given.
    DuplicateModifier,
    /// `align` was not given exactly one integer literal.
    MalformedAlignArgument,
    /// The identifier names no directive.
    UnrecognizedDirective,
}

/// A rejected directive item, attributed to the item's location.
#[derive(Clone, Copy, Debug)]
pub struct DirectiveError {
    pub kind: ErrorKind,
    /// For a malformed `align`: whether it was given more than one argument.
    pub too_many_args: bool,
    pub span: Span,
}

/// What a well-formed item asks for.
pub enum Directive {
    Base(BaseRepr),
    Modifier(Modifier),
}

/// The accumulated directives of one annotated type.
#[derive(Clone)]
pub struct Repr {
    pub base_repr: Option<(BaseRepr, Span)>,
    pub modifier: Option<(Modifier, Span)>,
}

/// The text shown for an error; for an unrecognized directive it lists
/// every valid base spelling.
pub open spec fn error_message(e: DirectiveError) -> Seq<char> {
    match e.kind {
        ErrorKind::DuplicateBaseRepr => "only one repr may be specified"@,
        ErrorKind::DuplicateModifier => "only one repr modifier may be specified"@,
        ErrorKind::MalformedAlignArgument => if e.too_many_args {
            "align requires only one argument"@
        } else {
            "expected integer literal"@
        },
        ErrorKind::UnrecognizedDirective =>
            "invalid repr, available reprs are transparent, C, i8, i16, i32, i64, i128, u8, u16, u32, u64, u128"@,
    }
}

/// Whether a character may stand in an argument handed to the literal check:
/// ASCII, and no delimiter.
pub open spec fn plain_char(c: char) -> bool {
    (c as u32) < 128 && c != '(' && c != ')' && c != '[' && c != ']' && c != '{' && c != '}'
}

/// Whether every character of the text is plain.
pub open spec fn plain_text(s: Seq<char>) -> bool {
    forall|i: int| 0 <= i < s.len() ==> plain_char(#[trigger] s[i])
}

/// Whether the item is `align` with one plain, non-empty argument: the one
/// kind of item whose outcome rests on the literal check.
pub open spec fn literal_checked(item: DirectiveItem) -> bool {
    &&& item.ident@ == "align"@
    &&& item.args@.len() == 1
    &&& item.args@[0]@.len() > 0
    &&& plain_text(item.args@[0]@)
}

/// What an item asks for, given whether its arguments are exactly one
/// integer literal: `packed` and `align` first, then the base spellings.
pub open spec fn directive_of(item: DirectiveItem, literal_arg: bool) -> Result<Directive, ErrorKind> {
    if item.ident@ == "packed"@ {
        Ok(Directive::Modifier(Modifier::Packed))
    } else if item.ident@ == "align"@ {
        if literal_arg && item.args@.len() == 1 {
            Ok(Directive::Modifier(Modifier::Align(item.args@[0])))
        } else {
            Err(ErrorKind::MalformedAlignArgument)
        }
    } else {
        match base_repr_for(item.ident@) {
            Some(b) => Ok(Directive::Base(b)),
            None => Err(ErrorKind::UnrecognizedDirective),
        }
    }
}

/// The model after recording an item, or the error it is rejected with.
pub open spec fn step(r: Repr, item: DirectiveItem, literal_arg: bool) -> Result<Repr, DirectiveError> {
    match directive_of(item, literal_arg) {
        Err(kind) => Err(
            DirectiveError {
                kind,
                too_many_args: kind == ErrorKind::MalformedAlignArgument && item.args@.len() > 1,
                span: item.span,
            },
        ),
        Ok(Directive::Base(b)) => if r.base_repr is Some {
            Err(
                DirectiveError {
                    kind: ErrorKind::DuplicateBaseRepr,
                    too_many_args: false,
                    span: item.span,
                },
            )
        } else {
            Ok(Repr { base_repr: Some((b, item.span)), ..r })
        },
        Ok(Directive::Modifier(m)) => if r.modifier is Some {
            Err(
                DirectiveError {
                    kind: ErrorKind::DuplicateModifier,
                    too_many_args: false,
                    span: item.span,
                },
            )
        } else {
            Ok(Repr { modifier: Some((m, item.span)), ..r })
        },
    }
}

/// Whether a call that took the model from `before` to `after` and returned
/// `r` had the expected outcome: on success the expected model, on a
/// rejection the expected error and the model left as it was.
pub open spec fn outcome_is(
    before: Repr,
    after: Repr,
    r: Result<(), DirectiveError>,
    expected: Result<Repr, DirectiveError>,
) -> bool {
    match expected {
        Ok(next) => r is Ok && after == next,
        Err(e) => r == Err::<(), DirectiveError>(e) && after == before,
    }
}

/// Records the items one after another, each with its literal verdict,
/// stopping at the first rejection.
pub open spec fn recorded_all(r: Repr, items: Seq<DirectiveItem>, literals: Seq<bool>) -> Result<
    Repr,
    DirectiveError,
>
    decreases items.len(),
{
    if items.len() == 0 || literals.len() == 0 {
        Ok(r)
    } else {
        match step(r, items[0], literals[0]) {
            Ok(next) => recorded_all(next, items.drop_first(), literals.drop_first()),
            Err(e) => Err(e),
        }
    }
}

/// The model with nothing recorded.
pub open spec fn empty_repr() -> Repr {
    Repr { base_repr: None, modifier: None }
}

/// The canonical directive text: the base spelling, then the modifier, each
/// followed by a comma, separated by a space; nothing for an empty slot.
pub open spec fn rendered(r: Repr) -> Seq<char> {
    match (r.base_repr, r.modifier) {
        (Some((b, _)), Some((m, _))) => base_repr_name(b) + ", "@ + modifier_text(m) + ","@,
        (Some((b, _)), None) => base_repr_name(b) + ","@,
        (None, Some((m, _))) => modifier_text(m) + ","@,
        (None, None) => Seq::empty(),
    }
}

impl DirectiveError {
    /// The text shown for this error; for an unrecognized directive it lists
    /// every valid base spelling.
    pub fn message(&self) -> (r: &'static str)
        ensures
            r@ == error_message(*self),
    {
        match self.kind {
            ErrorKind::DuplicateBaseRepr => "only one repr may be specified",
            ErrorKind::DuplicateModifier => "only one repr modifier may be specified",
            ErrorKind::MalformedAlignArgument => if self.too_many_args {
                "align requires only one argument"
            } else {
                "expected integer literal"
            },
            ErrorKind::UnrecognizedDirective =>
                "invalid repr, available reprs are transparent, C, i8, i16, i32, i64, i128, u8, u16, u32, u64, u128",
        }
    }
}

/// Whether every character of the text is plain: ASCII, and no delimiter.
pub fn is_plain_text(s: &str) -> (r: bool)
    ensures
        r == plain_text(s@),
{
    let n = s.unicode_len();
    let mut i: usize = 0;
    while i < n
        invariant
            n == s@.len(),
            i <= n,
            forall|k: int| 0 <= k < i ==> plain_char(#[trigger] s@[k]),
        decreases n - i,
    {
        let c = s.get_char(i);
        if !((c as u32) < 128 && c != '(' && c != ')' && c != '[' && c != ']' && c != '{' && c
            != '}') {
            return false;
        }
        i = i + 1;
    }
    true
}

impl Default for Repr {
    fn default() -> (r: Repr)
        ensures
            r == empty_repr(),
    {
        Repr { base_repr: None, modifier: None }
    }
}

impl Repr {
    fn try_set_modifier(&mut self, modifier: Modifier, span: Span) -> (r: Result<(), DirectiveError>)
        ensures
            old(self).modifier is Some ==> r == Err::<(), DirectiveError>(
                DirectiveError { kind: ErrorKind::DuplicateModifier, too_many_args: false, span },
            ) && *final(self) == *old(self),
            old(self).modifier is None ==> r is Ok && *final(self) == (Repr {
                modifier: Some((modifier, span)),
                ..*old(self)
            }),
    {
        if self.modifier.is_some() {
            Err(DirectiveError { kind: ErrorKind::DuplicateModifier, too_many_args: false, span })
        } else {
            self.modifier = Some((modifier, span));
            Ok(())
        }
    }

    fn try_set_base_repr(&mut self, repr: BaseRepr, span: Span) -> (r: Result<(), DirectiveError>)
        ensures
            old(self).base_repr is Some ==> r == Err::<(), DirectiveError>(
                DirectiveError { kind: ErrorKind::DuplicateBaseRepr, too_many_args: false, span },
            ) && *final(self) == *old(self),
            old(self).base_repr is None ==> r is Ok && *final(self) == (Repr {
                base_repr: Some((repr, span)),
                ..*old(self)
            }),
    {
        if self.base_repr.is_some() {
            Err(DirectiveError { kind: ErrorKind::DuplicateBaseRepr, too_many_args: false, span })
        } else {
            self.base_repr = Some((repr, span));
            Ok(())
        }
    }

    /// Records one item, given whether its arguments are exactly one integer
    /// literal. On a rejection the model is left as it was.
    pub fn record_item(&mut self, item: DirectiveItem, literal_arg: bool) -> (r: Result<(), DirectiveError>)
        ensures
            outcome_is(*old(self), *final(self), r, step(*old(self), item, literal_arg)),
    {
        let DirectiveItem { ident, mut args, span } = item;
        if same_text(ident.as_str(), "packed") {
            return self.try_set_modifier(Modifier::Packed, span);
        }
        if same_text(ident.as_str(), "align") {
            if !literal_arg || args.len() != 1 {
                let too_many_args = args.len() > 1;
                return Err(DirectiveError { kind: ErrorKind::MalformedAlignArgument, too_many_args, span });
            }
            match args.pop() {
                Some(n) => {
                    return self.try_set_modifier(Modifier::Align(n), span);
                },
                None => {
                    return Err(
                        DirectiveError { kind: ErrorKind::MalformedAlignArgument, too_many_args: false, span },
                    );
                },
            }
        }
        match BaseRepr::from_ident(ident.as_str()) {
            Some(b) => self.try_set_base_repr(b, span),
            None => Err(DirectiveError { kind: ErrorKind::UnrecognizedDirective, too_many_args: false, span }),
        }
    }

    /// Records one item: `packed`, `align(n)` with `n` an integer literal,
    /// or one of the base spellings. On a rejection the model is left as it
    /// was, and the error points at this item. Whether the argument of an
    /// `align` is an integer literal is syn's verdict; an argument that is
    /// empty, not ASCII or holds a delimiter is never one.
    pub fn parse_list_meta(&mut self, item: DirectiveItem) -> (r: Result<(), DirectiveError>)
        ensures
            outcome_is(*old(self), *final(self), r, step(*old(self), item, false)) || (
            literal_checked(item) && outcome_is(
                *old(self),
                *final(self),
                r,
                step(*old(self), item, true),
            )),
    {
        let literal_arg = if item.args.len() == 1 && same_text(item.ident.as_str(), "align")
            && is_plain_text(item.args[0].as_str()) {
            is_int_literal(item.args[0].as_str())
        } else {
            false
        };
        self.record_item(item, literal_arg)
    }

    /// The recorded base representation and modifier.
    pub fn current_state(&self) -> (r: (Option<BaseRepr>, Option<&Modifier>))
        ensures
            r.0 == (match self.base_repr {
                Some((b, _)) => Some(b),
                None => None::<BaseRepr>,
            }),
            r.1 is Some <==> self.modifier is Some,
            r.1 is Some ==> *r.1.unwrap() == self.modifier.unwrap().0,
    {
        let base = match &self.base_repr {
            Some((b, _)) => Some(*b),
            None => None,
        };
        let modifier = match &self.modifier {
            Some((m, _)) => Some(m),
            None => None,
        };
        (base, modifier)
    }

    /// The canonical directive text, such as `C, align(16),`.
    pub fn render(&self) -> (r: String)
        ensures
            r@ == rendered(*self),
    {
        match (&self.base_repr, &self.modifier) {
            (Some((b, _)), Some((m, _))) => {
                let mut out = String::from_str(b.name());
                out.append(", ");
                out.append(m.render().as_str());
                out.append(",");
                out
            },
            (Some((b, _)), None) => {
                let mut out = String::from_str(b.name());
                out.append(",");
                out
            },
            (None, Some((m, _))) => {
                let mut out = m.render();
                out.append(",");
                out
            },
            (None, None) => String::new(),
        }
    }
}

} // verus!

//! Chat components: plain text, nested siblings, and messages whose
//! content is a language-table template with positional arguments.

use vstd::prelude::*;
use vstd::string::{StrSliceExecFns, StringExecFns};
use crate::style::Style;
use crate::text::string_push_char;

verus! {

/// A piece of formatted text: either plain text or a translatable
/// message.
#[derive(Debug, PartialEq, Eq)]
pub enum FormattedText {
    Text(TextComponent),
    Translatable(TranslatableComponent),
}

/// What every component carries: nested siblings and a style.
#[derive(Debug, PartialEq, Eq)]
pub struct BaseComponent {
    pub siblings: Vec<FormattedText>,
    pub style: Style,
}

/// A plain text component.
#[derive(Debug, PartialEq, Eq)]
pub struct TextComponent {
    pub base: BaseComponent,
    pub text: String,
}

/// One argument of a translatable message: plain text or a nested
/// component.
#[derive(Debug, PartialEq, Eq)]
pub enum StringOrComponent {
    String(String),
    FormattedText(FormattedText),
}

/// A message whose content depends on the client's language: a key into
/// the language table and positional arguments. The table itself lives
/// with the caller; decoding hands the template in.
#[derive(Debug, PartialEq, Eq)]
pub struct TranslatableComponent {
    pub base: BaseComponent,
    pub key: String,
    pub args: Vec<StringOrComponent>,
}

/// The plain text a component flattens to: its own text, then its
/// siblings in order. A nested translatable flattens to its key, since
/// resolving it needs the language table.
pub open spec fn plain_text_of(c: FormattedText) -> Seq<char>
    decreases c,
{
    match c {
        FormattedText::Text(t) => t.text@ + plain_text_of_siblings(t.base.siblings@),
        FormattedText::Translatable(t) => t.key@ + plain_text_of_siblings(t.base.siblings@),
    }
}

/// The concatenated plain text of a sibling list.
pub open spec fn plain_text_of_siblings(siblings: Seq<FormattedText>) -> Seq<char>
    decreases siblings,
{
    if siblings.len() == 0 {
        Seq::empty()
    } else {
        plain_text_of(siblings[0]) + plain_text_of_siblings(siblings.drop_first())
    }
}

/// A template could not be expanded: a `%` escape names a positional
/// argument without the closing `$s`.
#[derive(Debug, PartialEq, Eq)]
pub struct TemplateError;

/// Whether a character is a decimal digit.
pub open spec fn is_digit(c: char) -> bool {
    c == '0' || c == '1' || c == '2' || c == '3' || c == '4' || c == '5' || c == '6' || c == '7'
        || c == '8' || c == '9'
}

/// A digit's numeric value.
pub open spec fn digit_of(c: char) -> nat {
    if c == '0' { 0nat }
    else if c == '1' { 1nat }
    else if c == '2' { 2nat }
    else if c == '3' { 3nat }
    else if c == '4' { 4nat }
    else if c == '5' { 5nat }
    else if c == '6' { 6nat }
    else if c == '7' { 7nat }
    else if c == '8' { 8nat }
    else { 9nat }
}

/// The argument text a position picks out; past the end it is empty.
pub open spec fn arg_at(args: Seq<Seq<char>>, i: int) -> Seq<char> {
    if 0 <= i < args.len() {
        args[i]
    } else {
        Seq::empty()
    }
}

/// Expand a template from position `i` with `matched` positional
/// arguments already used: `%%` is a literal percent, `%s` takes the next
/// argument, `%<digit>$s` takes the named argument, a trailing `%` stays,
/// any other `%<char>` keeps the percent and reprocesses the character,
/// and `%<digit>` without `$s` is an error.
pub open spec fn expand_from(t: Seq<char>, args: Seq<Seq<char>>, i: int, matched: int) -> Option<
    Seq<char>,
>
    decreases t.len() - i,
{
    if i >= t.len() || i < 0 {
        Some(Seq::empty())
    } else if t[i] == '%' {
        if i + 1 >= t.len() {
            Some(seq!['%'])
        } else {
            let c = t[i + 1];
            if c == '%' {
                match expand_from(t, args, i + 2, matched) {
                    Some(rest) => Some(seq!['%'] + rest),
                    None => None,
                }
            } else if c == 's' {
                match expand_from(t, args, i + 2, matched + 1) {
                    Some(rest) => Some(arg_at(args, matched) + rest),
                    None => None,
                }
            } else if is_digit(c) {
                if i + 2 < t.len() && t[i + 2] == '$' {
                    if i + 3 < t.len() && t[i + 3] == 's' {
                        match expand_from(t, args, i + 4, matched) {
                            Some(rest) => Some(arg_at(args, digit_of(c) - 1) + rest),
                            None => None,
                        }
                    } else {
                        None
                    }
                } else {
                    None
                }
            } else {
                match expand_from(t, args, i + 1, matched) {
                    Some(rest) => Some(seq!['%'] + rest),
                    None => None,
                }
            }
        }
    } else {
        match expand_from(t, args, i + 1, matched) {
            Some(rest) => Some(seq![t[i]] + rest),
            None => None,
        }
    }
}

/// What the whole template expands to, or nothing on a malformed escape.
pub open spec fn expand_spec(t: Seq<char>, args: Seq<Seq<char>>) -> Option<Seq<char>> {
    expand_from(t, args, 0, 0)
}

/// Expand a template over plain argument texts.
pub fn expand_template(template: &str, args: &Vec<String>) -> (r: Result<String, TemplateError>)
    ensures
        match r {
            Ok(out) => expand_spec(template@, args.deep_view()) == Some(out@),
            Err(_) => expand_spec(template@, args.deep_view()) is None,
        },
{
    let ghost t = template@;
    let ghost ga: Seq<Seq<char>> = args.deep_view();
    let len = template.unicode_len();
    let mut out = String::new();
    let mut i: usize = 0;
    let mut matched: usize = 0;
    proof {
        assert(ga.len() == args@.len());
    }
    while i < len
        invariant
            0 <= i <= len,
            len == t.len(),
            t == template@,
            ga == args.deep_view(),
            ga.len() == args@.len(),
            0 <= matched <= i,
            match expand_from(t, ga, i as int, matched as int) {
                Some(rest) => expand_spec(t, ga) == Some(out@ + rest),
                None => expand_spec(t, ga) is None,
            },
        decreases len - i,
    {
        let c = template.get_char(i);
        if c == '%' {
            if i + 1 >= len {
                string_push_char(&mut out, '%');
                proof {
                    assert(out@ + Seq::<char>::empty() =~= out@);
                }
                i = len;
            } else {
                let c2 = template.get_char(i + 1);
                if c2 == '%' {
                    string_push_char(&mut out, '%');
                    proof {
                        if let Some(rest) = expand_from(t, ga, i + 2, matched as int) {
                            assert(out@ + rest =~= (out@.drop_last() + (seq!['%'] + rest)));
                        }
                    }
                    i = i + 2;
                } else if c2 == 's' {
                    let a = arg_text(args, matched);
                    out.append(a.as_str());
                    proof {
                        if let Some(rest) = expand_from(t, ga, i + 2, matched + 1) {
                            assert(out@ + rest =~= (out@.subrange(
                                0,
                                out@.len() - a@.len(),
                            ) + (arg_at(ga, matched as int) + rest)));
                        }
                    }
                    i = i + 2;
                    matched = matched + 1;
                } else if c2 == '0' || c2 == '1' || c2 == '2' || c2 == '3' || c2 == '4' || c2 == '5'
                    || c2 == '6' || c2 == '7' || c2 == '8' || c2 == '9' {
                    if i + 2 < len && template.get_char(i + 2) == '$' && i + 3 < len
                        && template.get_char(i + 3) == 's' {
                        let d = digit_exec(c2);
                        let a = if d == 0 {
                            String::new()
                        } else {
                            arg_text(args, d - 1)
                        };
                        proof {
                            if d == 0 {
                                assert(arg_at(ga, digit_of(c2) - 1) =~= Seq::<char>::empty());
                            }
                        }
                        out.append(a.as_str());
                        proof {
                            if let Some(rest) = expand_from(t, ga, i + 4, matched as int) {
                                assert(out@ + rest =~= (out@.subrange(
                                    0,
                                    out@.len() - a@.len(),
                                ) + (arg_at(ga, digit_of(c2) - 1) + rest)));
                            }
                        }
                        i = i + 4;
                    } else {
                        return Err(TemplateError);
                    }
                } else {
                    string_push_char(&mut out, '%');
                    proof {
                        if let Some(rest) = expand_from(t, ga, i + 1, matched as int) {
                            assert(out@ + rest =~= (out@.drop_last() + (seq!['%'] + rest)));
                        }
                    }
                    i = i + 1;
                }
            }
        } else {
            string_push_char(&mut out, c);
            proof {
                if let Some(rest) = expand_from(t, ga, i + 1, matched as int) {
                    assert(out@ + rest =~= (out@.drop_last() + (seq![t[i as int]] + rest)));
                }
            }
            i = i + 1;
        }
    }
    proof {
        assert(out@ + Seq::<char>::empty() =~= out@);
    }
    Ok(out)
}

/// The argument text at a position, or empty past the end.
fn arg_text(args: &Vec<String>, i: usize) -> (r: String)
    ensures
        r@ == arg_at(args.deep_view(), i as int),
{
    if i < args.len() {
        let s = &args[i];
        proof {
            assert(args.deep_view()[i as int] == args@[i as int]@);
        }
        s.clone()
    } else {
        String::new()
    }
}

/// A digit character's value.
fn digit_exec(c: char) -> (r: usize)
    requires
        is_digit(c),
    ensures
        r == digit_of(c),
{
    if c == '0' { 0 }
    else if c == '1' { 1 }
    else if c == '2' { 2 }
    else if c == '3' { 3 }
    else if c == '4' { 4 }
    else if c == '5' { 5 }
    else if c == '6' { 6 }
    else if c == '7' { 7 }
    else if c == '8' { 8 }
    else { 9 }
}

impl BaseComponent {
    /// A base with no siblings and an empty style.
    pub fn new() -> (r: Self)
        ensures
            r.siblings@.len() == 0,
            r.style == crate::style::empty_style(),
    {
        BaseComponent { siblings: Vec::new(), style: Style::default() }
    }
}

impl TextComponent {
    /// A leaf text component.
    pub fn new(text: String) -> (r: Self)
        ensures
            r.text == text,
            r.base.siblings@.len() == 0,
            r.base.style == crate::style::empty_style(),
    {
        TextComponent { base: BaseComponent::new(), text }
    }
}

impl StringOrComponent {
    /// The plain text this argument contributes to an expansion.
    pub fn plain_string(&self) -> (r: String)
        ensures
            r@ == (match self {
                StringOrComponent::String(s) => s@,
                StringOrComponent::FormattedText(c) => plain_text_of(*c),
            }),
    {
        match self {
            StringOrComponent::String(s) => s.clone(),
            StringOrComponent::FormattedText(c) => flatten_text(c),
        }
    }
}

/// The plain text a component flattens to.
pub fn flatten_text(c: &FormattedText) -> (r: String)
    ensures
        r@ == plain_text_of(*c),
    decreases *c,
{
    broadcast use vstd::std_specs::vec::axiom_vec_index_decreases;

    let mut out: String;
    let siblings: &Vec<FormattedText>;
    match c {
        FormattedText::Text(t) => {
            out = t.text.clone();
            siblings = &t.base.siblings;
            proof {
                assert forall|j: int| 0 <= j < t.base.siblings@.len()
                    implies #[trigger] height_lt(t.base.siblings@[j], *c) by {
                    assert(decreases_to!(*c => t.base.siblings));
                    assert(decreases_to!(t.base.siblings => t.base.siblings@[j]));
                }
            }
        },
        FormattedText::Translatable(t) => {
            out = t.key.clone();
            siblings = &t.base.siblings;
            proof {
                assert forall|j: int| 0 <= j < t.base.siblings@.len()
                    implies #[trigger] height_lt(t.base.siblings@[j], *c) by {
                    assert(decreases_to!(*c => t.base.siblings));
                    assert(decreases_to!(t.base.siblings => t.base.siblings@[j]));
                }
            }
        },
    }
    let ghost sibs = siblings@;
    let mut i: usize = 0;
    proof {
        assert(sibs.skip(0) =~= sibs);
    }
    while i < siblings.len()
        invariant
            0 <= i <= sibs.len(),
            sibs == siblings@,
            forall|j: int| 0 <= j < sibs.len() ==> #[trigger] height_lt(sibs[j], *c),
            out@ + plain_text_of_siblings(sibs.skip(i as int)) == plain_text_of(*c),
        decreases sibs.len() - i,
    {
        proof {
            assert(height_lt(sibs[i as int], *c));
        }
        let piece = flatten_text(&siblings[i]);
        out.append(piece.as_str());
        proof {
            assert(sibs.skip(i as int).drop_first() =~= sibs.skip(i + 1));
            assert(sibs.skip(i as int)[0] == sibs[i as int]);
        }
        i = i + 1;
    }
    proof {
        assert(plain_text_of_siblings(sibs.skip(sibs.len() as int)) =~= Seq::<char>::empty());
        assert(out@ + Seq::<char>::empty() =~= out@);
    }
    out
}

/// Structural ordering used for the recursion over nested components.
pub open spec fn height_lt(a: FormattedText, b: FormattedText) -> bool {
    decreases_to!(b => a)
}

impl TranslatableComponent {
    /// A translatable message with no siblings and an empty style.
    pub fn new(key: String, args: Vec<StringOrComponent>) -> (r: Self)
        ensures
            r.key == key,
            r.args == args,
            r.base.siblings@.len() == 0,
            r.base.style == crate::style::empty_style(),
    {
        TranslatableComponent { base: BaseComponent::new(), key, args }
    }

    /// Expand this message against the given template (looked up from the
    /// language table by the caller, usually under this message's key).
    /// The expansion is delivered as one plain text component; a
    /// malformed positional escape is an error.
    pub fn read(&self, template: &str) -> (r: Result<TextComponent, TemplateError>)
        ensures
            match r {
                Ok(tc) => {
                    &&& tc.base.siblings@.len() == 0
                    &&& (match expand_spec(template@, spec_args_plain(self.args@)) {
                        Some(text) => tc.text@ == text,
                        None => false,
                    })
                },
                Err(_) => expand_spec(template@, spec_args_plain(self.args@)) is None,
            },
    {
        let mut plain_args: Vec<String> = Vec::new();
        let mut i: usize = 0;
        while i < self.args.len()
            invariant
                0 <= i <= self.args@.len(),
                plain_args.deep_view() =~= spec_args_plain(self.args@).take(i as int),
            decreases self.args@.len() - i,
        {
            let ghost prev = plain_args@;
            let ghost prev_dv = plain_args.deep_view();
            let piece = self.args[i].plain_string();
            let ghost piece_chars = piece@;
            plain_args.push(piece);
            proof {
                let target = spec_args_plain(self.args@);
                assert(prev_dv.len() == i);
                assert(prev_dv == Seq::new(prev.len(), |k: int| prev[k].deep_view()));
                assert(prev.len() == i);
                assert(plain_args@.len() == i + 1);
                assert(piece_chars == target[i as int]);
                assert(plain_args@ == prev.push(plain_args@[i as int]));
                assert forall|j: int| 0 <= j < i + 1
                    implies plain_args.deep_view()[j] == target.take(i + 1)[j] by {
                    assert(plain_args.deep_view()[j] == plain_args@[j].deep_view());
                    if j < i {
                        assert(plain_args@[j] == prev[j]);
                        assert(prev_dv[j] == prev[j].deep_view());
                        assert(prev_dv[j] == target.take(i as int)[j]);
                    } else {
                        assert(plain_args@[j]@ == piece_chars);
                    }
                }
                assert(plain_args.deep_view().len() == i + 1);
                assert(plain_args.deep_view() =~= target.take(i + 1));
            }
            i = i + 1;
        }
        proof {
            assert(spec_args_plain(self.args@).take(self.args@.len() as int)
                =~= spec_args_plain(self.args@));
        }
        match expand_template(template, &plain_args) {
            Ok(text) => Ok(TextComponent::new(text)),
            Err(e) => Err(e),
        }
    }
}

/// The plain texts of an argument list, in order.
pub open spec fn spec_args_plain(args: Seq<StringOrComponent>) -> Seq<Seq<char>> {
    args.map_values(
        |a: StringOrComponent|
            match a {
                StringOrComponent::String(s) => s@,
                StringOrComponent::FormattedText(c) => plain_text_of(c),
            },
    )
}

} // verus!

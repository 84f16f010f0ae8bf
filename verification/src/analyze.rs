//! The check of names: a class is to be named in upper camel case, a method
//! in lower camel case. For a name that is not, a warning shows how it
//! would be written.

use vstd::prelude::*;
use vstd::string::StringExecFns;
use crate::diagnostics::{
    Remark, RemarkKind, RemarkView, Report, reports_view, ReportView, Severity, Snippet,
    SnippetView,
};
use crate::syntax::ast::{Class, ClassView, CUnit, Ident, IdentView, Item, ItemView, MethodView};
use crate::text::chars_of;

verus! {

/// Whether Unicode calls `c` a lowercase character.
pub uninterp spec fn unicode_lowercase(c: char) -> bool;

/// Whether Unicode calls `c` an uppercase character.
pub uninterp spec fn unicode_uppercase(c: char) -> bool;

/// The characters that Unicode gives as `c` in uppercase.
pub uninterp spec fn uppercase_of(c: char) -> Seq<char>;

/// The characters that Unicode gives as `c` in lowercase.
pub uninterp spec fn lowercase_of(c: char) -> Seq<char>;

/// `char::is_lowercase` tells whether Unicode calls the character
/// lowercase.
pub assume_specification[ char::is_lowercase ](c: char) -> (r: bool)
    ensures
        r == unicode_lowercase(c),
;

/// `char::is_uppercase` tells whether Unicode calls the character
/// uppercase.
pub assume_specification[ char::is_uppercase ](c: char) -> (r: bool)
    ensures
        r == unicode_uppercase(c),
;

/// `char::to_uppercase` gives the characters that are `c` in uppercase.
#[verifier::external_body]
fn to_uppercase(c: char) -> (r: Vec<char>)
    ensures
        r@ == uppercase_of(c),
{
    c.to_uppercase().collect()
}

/// `char::to_lowercase` gives the characters that are `c` in lowercase.
#[verifier::external_body]
fn to_lowercase(c: char) -> (r: Vec<char>)
    ensures
        r@ == lowercase_of(c),
{
    c.to_lowercase().collect()
}

/// `c` in uppercase, where that is one character; else `c`.
pub open spec fn upper(c: char) -> char {
    if uppercase_of(c).len() == 1 {
        uppercase_of(c)[0]
    } else {
        c
    }
}

/// `c` in lowercase, where that is one character; else `c`.
pub open spec fn lower(c: char) -> char {
    if lowercase_of(c).len() == 1 {
        lowercase_of(c)[0]
    } else {
        c
    }
}

/// The name from index `i` on in camel case, behind `acc`: each underscore
/// is left out, and the next lowercase character behind one is set in
/// uppercase. `wanted` says whether an uppercase character is due.
pub open spec fn camel(name: Seq<char>, i: int, wanted: bool, acc: Seq<char>) -> Seq<char>
    decreases name.len() - i,
{
    if i < 0 || i >= name.len() {
        acc
    } else if name[i] == '_' {
        camel(name, i + 1, true, acc)
    } else if unicode_lowercase(name[i]) && wanted {
        camel(name, i + 1, false, acc.push(upper(name[i])))
    } else {
        camel(name, i + 1, wanted, acc.push(name[i]))
    }
}

/// Whether the name holds an underscore.
pub open spec fn has_underscore(name: Seq<char>) -> bool {
    exists|i: int| 0 <= i < name.len() && #[trigger] name[i] == '_'
}

/// Whether a name is not in upper camel case: it starts in lowercase or
/// holds an underscore.
pub open spec fn breaks_upper_camel(name: Seq<char>) -> bool {
    (name.len() > 0 && unicode_lowercase(name[0])) || has_underscore(name)
}

/// Whether a name is not in lower camel case: it starts in uppercase or
/// holds an underscore.
pub open spec fn breaks_lower_camel(name: Seq<char>) -> bool {
    (name.len() > 0 && unicode_uppercase(name[0])) || has_underscore(name)
}

/// The name in upper camel case.
pub open spec fn upper_camel(name: Seq<char>) -> Seq<char> {
    camel(name, 0, true, Seq::empty())
}

/// The name in lower camel case.
pub open spec fn lower_camel(name: Seq<char>) -> Seq<char> {
    if name.len() == 0 {
        Seq::empty()
    } else {
        camel(name, 1, false, seq![lower(name[0])])
    }
}

/// The warning on a name that is not in the style `style`, with the
/// name `better` as it would be written.
pub open spec fn style_warning(id: IdentView, context: Seq<char>, style: Seq<char>, better: Seq<char>) -> ReportView {
    ReportView {
        severity: Severity::Warning,
        message: "This "@ + context + " should be written in '"@ + style + "'"@,
        span: id.span,
        remarks: seq![
            RemarkView {
                kind: RemarkKind::Note,
                message: "Consider changing the name like shown here"@,
                snippet: SnippetView::Replace(id.span, better),
            },
        ],
    }
}

/// The warning on a name that is to be in upper camel case, if it is not.
pub open spec fn upper_camel_warning(id: IdentView, context: Seq<char>) -> Option<ReportView> {
    if breaks_upper_camel(id.name) {
        Some(style_warning(id, context, "UpperCamelCase"@, upper_camel(id.name)))
    } else {
        None
    }
}

/// The warning on a name that is to be in lower camel case, if it is not.
pub open spec fn lower_camel_warning(id: IdentView, context: Seq<char>) -> Option<ReportView> {
    if breaks_lower_camel(id.name) {
        Some(style_warning(id, context, "lowerCamelCase"@, lower_camel(id.name)))
    } else {
        None
    }
}

/// Whether the characters hold an underscore.
fn holds_underscore(name: &Vec<char>) -> (r: bool)
    ensures
        r == has_underscore(name@),
{
    let mut i: usize = 0;
    while i < name.len()
        invariant
            i <= name.len(),
            forall|j: int| 0 <= j < i ==> #[trigger] name@[j] != '_',
        decreases name.len() - i,
    {
        if name[i] == '_' {
            return true;
        }
        i += 1;
    }
    false
}

/// `c` in uppercase, where that is one character; else `c`.
fn upper_char(c: char) -> (u: char)
    ensures
        u == upper(c),
{
    let up = to_uppercase(c);
    if up.len() == 1 {
        up[0]
    } else {
        c
    }
}

/// `c` in lowercase, where that is one character; else `c`.
fn lower_char(c: char) -> (l: char)
    ensures
        l == lower(c),
{
    let low = to_lowercase(c);
    if low.len() == 1 {
        low[0]
    } else {
        c
    }
}

/// Appends the name from index `from` on in camel case to `out`.
fn camel_case(name: &Vec<char>, from: usize, wanted: bool, out: String) -> (r: String)
    ensures
        r@ == camel(name@, from as int, wanted, out@),
{
    let mut out = out;
    let mut wanted = wanted;
    let mut i: usize = from;
    let ghost goal = camel(name@, from as int, wanted, out@);
    while i < name.len()
        invariant
            goal == camel(name@, i as int, wanted, out@),
        decreases name.len() - i,
    {
        let c = name[i];
        if c == '_' {
            wanted = true;
        } else if c.is_lowercase() && wanted {
            out.push(upper_char(c));
            wanted = false;
        } else {
            out.push(c);
        }
        i += 1;
    }
    out
}

/// The warning with the name as it would be written.
fn warning(id: &Ident, context: &str, style: &str, better: String) -> (r: Report)
    ensures
        r@ == style_warning(id@, context@, style@, better@),
{
    let mut m = "This ".to_owned();
    m.append(context);
    m.append(" should be written in '");
    m.append(style);
    m.append("'");
    let note = Remark::note(
        "Consider changing the name like shown here".to_owned(),
        Snippet::Replace(id.span, better),
    );
    let r = Report::warning(id.span, m).with_remark(note);
    r
}

/// Warns where the name is not in upper camel case, and shows how it
/// would be written.
pub fn check_upper_camel_case(id: &Ident, context: &str) -> (r: Option<Report>)
    ensures
        match upper_camel_warning(id@, context@) {
            Some(w) => r is Some && r.unwrap()@ == w,
            None => r is None,
        },
{
    let name = chars_of(id.name.as_str());
    let first_is_lowercase = name.len() > 0 && name[0].is_lowercase();
    if first_is_lowercase || holds_underscore(&name) {
        let better = camel_case(&name, 0, true, String::new());
        Some(warning(id, context, "UpperCamelCase", better))
    } else {
        None
    }
}

/// Warns where the name is not in lower camel case, and shows how it
/// would be written.
pub fn check_lower_camel_case(id: &Ident, context: &str) -> (r: Option<Report>)
    ensures
        match lower_camel_warning(id@, context@) {
            Some(w) => r is Some && r.unwrap()@ == w,
            None => r is None,
        },
{
    let name = chars_of(id.name.as_str());
    let first_is_uppercase = name.len() > 0 && name[0].is_uppercase();
    if first_is_uppercase || holds_underscore(&name) {
        let mut start = String::new();
        if name.len() > 0 {
            start.push(lower_char(name[0]));
        }
        let better = camel_case(&name, 1, false, start);
        Some(warning(id, context, "lowerCamelCase", better))
    } else {
        None
    }
}

/// The warnings on the methods of a class from index `i` on.
pub open spec fn method_warnings(methods: Seq<MethodView>, i: int) -> Seq<ReportView>
    decreases methods.len() - i,
{
    if i < 0 || i >= methods.len() {
        Seq::empty()
    } else {
        match lower_camel_warning(methods[i].name, "method name"@) {
            Some(w) => seq![w] + method_warnings(methods, i + 1),
            None => method_warnings(methods, i + 1),
        }
    }
}

/// The warnings on a class: on its name, and on the names of its methods.
pub open spec fn class_warnings(c: ClassView) -> Seq<ReportView> {
    match upper_camel_warning(c.name, "type name"@) {
        Some(w) => seq![w] + method_warnings(c.methods, 0),
        None => method_warnings(c.methods, 0),
    }
}

/// The warnings on the items of a compilation unit from index `i` on.
pub open spec fn item_warnings(items: Seq<ItemView>, i: int) -> Seq<ReportView>
    decreases items.len() - i,
{
    if i < 0 || i >= items.len() {
        Seq::empty()
    } else {
        match items[i] {
            ItemView::Class(c) => class_warnings(c) + item_warnings(items, i + 1),
            _ => item_warnings(items, i + 1),
        }
    }
}

/// Adds the warnings on a class to `out`.
fn check_class(c: &Class, out: &mut Vec<Report>)
    ensures
        reports_view(final(out)@) == reports_view(old(out)@) + class_warnings(c@),
{
    let ghost before = reports_view(out@);
    let ghost mut done: Seq<ReportView> = Seq::empty();
    match check_upper_camel_case(&c.name, "type name") {
        Some(w) => {
            proof {
                done = seq![w@];
            }
            out.push(w);
        },
        None => {},
    }
    let ghost head = done;
    let ghost goal = method_warnings(c@.methods, 0);
    proof {
        done = Seq::empty();
    }
    let mut i: usize = 0;
    while i < c.methods.len()
        invariant
            i <= c.methods.len(),
            reports_view(out@) =~= before + head + done,
            goal == done + method_warnings(c@.methods, i as int),
        decreases c.methods.len() - i,
    {
        match check_lower_camel_case(&c.methods[i].name, "method name") {
            Some(w) => {
                proof {
                    let one = seq![w@];
                    crate::diagnostics::lemma_reports_push(out@, w);
                    done = done + one;
                }
                out.push(w);
            },
            None => {},
        }
        i += 1;
    }
}

/// The warnings on the names of a compilation unit: classes are to be
/// named in upper camel case, methods in lower camel case.
pub fn check_names(cu: &CUnit) -> (out: Vec<Report>)
    ensures
        reports_view(out@) == item_warnings(cu@.items, 0),
{
    let ghost goal = item_warnings(cu@.items, 0);
    let mut out: Vec<Report> = Vec::new();
    let mut i: usize = 0;
    while i < cu.items.len()
        invariant
            i <= cu.items.len(),
            goal == reports_view(out@) + item_warnings(cu@.items, i as int),
        decreases cu.items.len() - i,
    {
        match &cu.items[i] {
            Item::Class(c) => {
                check_class(c, &mut out);
            },
            _ => {},
        }
        i += 1;
    }
    out
}

} // verus!

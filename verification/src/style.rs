//! The styles that names are to be written in, and the notes that say
//! which style belongs to which name of a compilation unit.

use vstd::prelude::*;
use vstd::string::StringExecFns;
use crate::diagnostics::{Report, reports_view, ReportView, Severity};
use crate::syntax::ast::{Class, ClassView, CUnit, Ident, IdentView, Item, ItemView, MethodView};

verus! {

/// What a name names.
#[derive(Debug, Clone, Copy, PartialEq, Eq, Structural)]
pub enum NameType {
    Class,
    Method,
    StaticMethod,
}

/// The styles of writing a name.
#[derive(Debug, Clone, Copy, PartialEq, Eq, Structural)]
pub enum NameStyle {
    LowerCamelCase,
    UpperCamelCase,
    SnakeCase,
    UpperSnakeCase,
    CapsSnakeCase,
}

impl NameType {
    /// How the kind of name is called.
    pub open spec fn text(self) -> Seq<char> {
        match self {
            NameType::Class => "Class"@,
            NameType::Method => "Method"@,
            NameType::StaticMethod => "StaticMethod"@,
        }
    }

    /// How the kind of name is called.
    pub fn as_str(&self) -> (s: &'static str)
        ensures
            s@ == self.text(),
    {
        match self {
            NameType::Class => "Class",
            NameType::Method => "Method",
            NameType::StaticMethod => "StaticMethod",
        }
    }
}

impl NameStyle {
    /// The name of the style, written in that style.
    pub open spec fn text(self) -> Seq<char> {
        match self {
            NameStyle::LowerCamelCase => "lowerCamelCase"@,
            NameStyle::UpperCamelCase => "UpperCamelCase"@,
            NameStyle::SnakeCase => "snake_case"@,
            NameStyle::UpperSnakeCase => "Upper_Snake_Case"@,
            NameStyle::CapsSnakeCase => "CAPS_SNAKE_CASE"@,
        }
    }

    /// The name of the style, written in that style.
    pub fn as_str(&self) -> (s: &'static str)
        ensures
            s@ == self.text(),
    {
        match self {
            NameStyle::LowerCamelCase => "lowerCamelCase",
            NameStyle::UpperCamelCase => "UpperCamelCase",
            NameStyle::SnakeCase => "snake_case",
            NameStyle::UpperSnakeCase => "Upper_Snake_Case",
            NameStyle::CapsSnakeCase => "CAPS_SNAKE_CASE",
        }
    }
}

/// Which style each kind of name is to be written in.
#[derive(Debug, Clone, Copy, PartialEq, Eq, Structural)]
pub struct Config {
    pub class_s: NameStyle,
    pub method_s: NameStyle,
    pub static_method_s: NameStyle,
}

impl Config {
    /// The style for a kind of name.
    pub open spec fn style_of(self, ty: NameType) -> NameStyle {
        match ty {
            NameType::Class => self.class_s,
            NameType::Method => self.method_s,
            NameType::StaticMethod => self.static_method_s,
        }
    }

    /// The style for a kind of name.
    pub fn get(&self, ty: NameType) -> (s: NameStyle)
        ensures
            s == self.style_of(ty),
    {
        match ty {
            NameType::Class => self.class_s,
            NameType::Method => self.method_s,
            NameType::StaticMethod => self.static_method_s,
        }
    }
}

impl Default for Config {
    /// Classes in upper camel case, methods in lower camel case.
    fn default() -> (c: Config)
        ensures
            c == (Config {
                class_s: NameStyle::UpperCamelCase,
                method_s: NameStyle::LowerCamelCase,
                static_method_s: NameStyle::LowerCamelCase,
            }),
    {
        Config {
            class_s: NameStyle::UpperCamelCase,
            method_s: NameStyle::LowerCamelCase,
            static_method_s: NameStyle::LowerCamelCase,
        }
    }
}

/// The note on a name: what it names, and the style that it needs.
pub open spec fn style_note(conf: Config, id: IdentView, ty: NameType) -> ReportView {
    ReportView::simple(
        Severity::Note,
        id.span,
        "This is a '"@ + ty.text() + "' name and needs to be '"@ + conf.style_of(ty).text()
            + "' :-)"@,
    )
}

/// What the name of a method names.
pub open spec fn method_name_type(m: MethodView) -> NameType {
    if m.static_ {
        NameType::StaticMethod
    } else {
        NameType::Method
    }
}

/// The notes on the methods of a class from index `i` on.
pub open spec fn method_notes(conf: Config, methods: Seq<MethodView>, i: int) -> Seq<ReportView>
    decreases methods.len() - i,
{
    if i < 0 || i >= methods.len() {
        Seq::empty()
    } else {
        seq![style_note(conf, methods[i].name, method_name_type(methods[i]))] + method_notes(
            conf,
            methods,
            i + 1,
        )
    }
}

/// The notes on a class: one on its name, and one on the name of each of
/// its methods.
pub open spec fn class_notes(conf: Config, c: ClassView) -> Seq<ReportView> {
    seq![style_note(conf, c.name, NameType::Class)] + method_notes(conf, c.methods, 0)
}

/// The notes on the items of a compilation unit from index `i` on: those
/// on its classes.
pub open spec fn item_notes(conf: Config, items: Seq<ItemView>, i: int) -> Seq<ReportView>
    decreases items.len() - i,
{
    if i < 0 || i >= items.len() {
        Seq::empty()
    } else {
        match items[i] {
            ItemView::Class(c) => class_notes(conf, c) + item_notes(conf, items, i + 1),
            _ => item_notes(conf, items, i + 1),
        }
    }
}

/// Says which style each name of a compilation unit needs.
pub struct Checker {
    conf: Config,
}

impl Checker {
    /// The styles that the checker goes by.
    pub closed spec fn config(&self) -> Config {
        self.conf
    }

    /// A checker that goes by `conf`.
    pub fn new(conf: Config) -> (c: Checker)
        ensures
            c.config() == conf,
    {
        Checker { conf }
    }

    /// The note on a name.
    fn check_ident(&self, id: &Ident, ty: NameType) -> (r: Report)
        ensures
            r@ == style_note(self.config(), id@, ty),
    {
        let mut m = "This is a '".to_owned();
        m.append(ty.as_str());
        m.append("' name and needs to be '");
        m.append(self.conf.get(ty).as_str());
        m.append("' :-)");
        Report::note(id.span, m)
    }

    /// Adds the notes on a class to `out`.
    fn check_class(&self, c: &Class, out: &mut Vec<Report>)
        ensures
            reports_view(final(out)@) == reports_view(old(out)@) + class_notes(
                self.config(),
                c@,
            ),
    {
        let ghost before = reports_view(out@);
        let ghost conf = self.config();
        let first = self.check_ident(&c.name, NameType::Class);
        out.push(first);
        let ghost head = seq![style_note(conf, c@.name, NameType::Class)];
        let ghost goal = method_notes(conf, c@.methods, 0);
        let mut i: usize = 0;
        let ghost mut done: Seq<ReportView> = Seq::empty();
        while i < c.methods.len()
            invariant
                i <= c.methods.len(),
                conf == self.config(),
                reports_view(out@) =~= before + head + done,
                goal == done + method_notes(conf, c@.methods, i as int),
            decreases c.methods.len() - i,
        {
            let m = &c.methods[i];
            let ty = if m.static_ {
                NameType::StaticMethod
            } else {
                NameType::Method
            };
            let r = self.check_ident(&m.name, ty);
            proof {
                let one = seq![r@];
                crate::diagnostics::lemma_reports_push(out@, r);
                done = done + one;
            }
            out.push(r);
            i += 1;
        }
    }

    /// The notes on the names of a compilation unit: for each class one on
    /// its name and one on the name of each of its methods.
    pub fn check(&self, cu: &CUnit) -> (out: Vec<Report>)
        ensures
            reports_view(out@) == item_notes(self.config(), cu@.items, 0),
    {
        let ghost conf = self.config();
        let ghost goal = item_notes(conf, cu@.items, 0);
        let mut out: Vec<Report> = Vec::new();
        let mut i: usize = 0;
        while i < cu.items.len()
            invariant
                i <= cu.items.len(),
                conf == self.config(),
                goal == reports_view(out@) + item_notes(conf, cu@.items, i as int),
            decreases cu.items.len() - i,
        {
            match &cu.items[i] {
                Item::Class(c) => {
                    self.check_class(c, &mut out);
                },
                _ => {},
            }
            i += 1;
        }
        out
    }
}

} // verus!

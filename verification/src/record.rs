//! The compile-time description of a component: a property record is the
//! record type's name, its component annotation, and its declared fields,
//! each field carrying its name, the shape of its declared type, and its
//! own annotation if any.  Reading an annotation is itself a total,
//! checked step: an unknown property or a wrongly-shaped value is a
//! reported error, never a silent default.

use vstd::prelude::*;
use crate::text::str_eq;

verus! {

/// The value of one `name = value` pair inside a component annotation.
#[derive(Debug)]
pub enum ArgValue {
    Text(String),
    Flag(bool),
}

/// What an annotation argument's value holds.
pub enum ArgValueView {
    Text(Seq<char>),
    Flag(bool),
}

impl View for ArgValue {
    type V = ArgValueView;

    open spec fn view(&self) -> ArgValueView {
        match self {
            ArgValue::Text(s) => ArgValueView::Text(s@),
            ArgValue::Flag(b) => ArgValueView::Flag(*b),
        }
    }
}

/// One `name = value` pair of a component annotation.
#[derive(Debug)]
pub struct RawArg {
    pub name: String,
    pub value: ArgValue,
}

/// What an annotation argument holds.
pub struct RawArgView {
    pub name: Seq<char>,
    pub value: ArgValueView,
}

impl View for RawArg {
    type V = RawArgView;

    open spec fn view(&self) -> RawArgView {
        RawArgView { name: self.name@, value: self.value@ }
    }
}

impl DeepView for RawArg {
    type V = RawArgView;

    open spec fn deep_view(&self) -> RawArgView {
        self@
    }
}

/// The parsed component annotation: an optional fixed tag name, whether
/// the tag is chosen dynamically, and whether the record takes children.
#[derive(Debug)]
pub struct ComponentArgs {
    pub tag: Option<String>,
    pub dynamic_tag: Option<bool>,
    pub no_children: Option<bool>,
}

/// What a parsed component annotation holds.
pub struct ComponentArgsView {
    pub tag: Option<Seq<char>>,
    pub dynamic_tag: Option<bool>,
    pub no_children: Option<bool>,
}

impl View for ComponentArgs {
    type V = ComponentArgsView;

    open spec fn view(&self) -> ComponentArgsView {
        ComponentArgsView {
            tag: match &self.tag {
                Some(t) => Some(t@),
                None => None,
            },
            dynamic_tag: self.dynamic_tag,
            no_children: self.no_children,
        }
    }
}

/// A rejected annotation: an unknown property, or a property whose value
/// has the wrong shape; each error names the offending property.
#[derive(Debug)]
pub enum ParseError {
    UnknownProperty(String),
    ExpectedText(String),
    ExpectedFlag(String),
}

/// What an annotation error holds.
pub enum ParseErrorView {
    UnknownProperty(Seq<char>),
    ExpectedText(Seq<char>),
    ExpectedFlag(Seq<char>),
}

impl View for ParseError {
    type V = ParseErrorView;

    open spec fn view(&self) -> ParseErrorView {
        match self {
            ParseError::UnknownProperty(s) => ParseErrorView::UnknownProperty(s@),
            ParseError::ExpectedText(s) => ParseErrorView::ExpectedText(s@),
            ParseError::ExpectedFlag(s) => ParseErrorView::ExpectedFlag(s@),
        }
    }
}

/// The annotation with nothing set.
pub open spec fn empty_args() -> ComponentArgsView {
    ComponentArgsView { tag: None, dynamic_tag: None, no_children: None }
}

/// Reading one annotation argument into the accumulated annotation:
/// `tag` takes a text value, `dynamic_tag` and `no_children` take flags,
/// a later setting overrides an earlier one, and anything else is an
/// error naming the property.
pub open spec fn spec_parse_step(acc: ComponentArgsView, a: RawArgView) -> Result<
    ComponentArgsView,
    ParseErrorView,
> {
    if a.name == "tag"@ {
        match a.value {
            ArgValueView::Text(t) => Ok(ComponentArgsView { tag: Some(t), ..acc }),
            ArgValueView::Flag(_) => Err(ParseErrorView::ExpectedText(a.name)),
        }
    } else if a.name == "dynamic_tag"@ {
        match a.value {
            ArgValueView::Flag(b) => Ok(ComponentArgsView { dynamic_tag: Some(b), ..acc }),
            ArgValueView::Text(_) => Err(ParseErrorView::ExpectedFlag(a.name)),
        }
    } else if a.name == "no_children"@ {
        match a.value {
            ArgValueView::Flag(b) => Ok(ComponentArgsView { no_children: Some(b), ..acc }),
            ArgValueView::Text(_) => Err(ParseErrorView::ExpectedFlag(a.name)),
        }
    } else {
        Err(ParseErrorView::UnknownProperty(a.name))
    }
}

/// Reading a whole annotation, first argument to last; the first error
/// wins.
pub open spec fn spec_parse_args(args: Seq<RawArgView>) -> Result<ComponentArgsView, ParseErrorView>
    decreases args.len(),
{
    if args.len() == 0 {
        Ok(empty_args())
    } else {
        match spec_parse_args(args.drop_last()) {
            Ok(acc) => spec_parse_step(acc, args.last()),
            Err(e) => Err(e),
        }
    }
}

/// Once a prefix of the annotation is rejected, the whole annotation is
/// rejected with the same error.
pub proof fn lemma_parse_err_persists(args: Seq<RawArgView>, j: int)
    requires
        0 <= j <= args.len(),
        spec_parse_args(args.take(j)) is Err,
    ensures
        spec_parse_args(args) == spec_parse_args(args.take(j)),
    decreases args.len() - j,
{
    if j == args.len() {
        assert(args.take(j) =~= args);
    } else {
        assert(args.take(j + 1).drop_last() =~= args.take(j));
        lemma_parse_err_persists(args, j + 1);
    }
}

/// Reads a component annotation.
pub fn parse_struct_component_attr(args: &Vec<RawArg>) -> (r: Result<ComponentArgs, ParseError>)
    ensures
        (match r {
            Ok(a) => spec_parse_args(args.deep_view()) == Ok::<ComponentArgsView, ParseErrorView>(
                a@,
            ),
            Err(e) => spec_parse_args(args.deep_view()) == Err::<
                ComponentArgsView,
                ParseErrorView,
            >(e@),
        }),
{
    let ghost av = args.deep_view();
    let mut acc = ComponentArgs { tag: None, dynamic_tag: None, no_children: None };
    let mut i: usize = 0;
    proof {
        assert(av.take(0) =~= Seq::<RawArgView>::empty());
    }
    while i < args.len()
        invariant
            i <= args.len(),
            av == args.deep_view(),
            av.len() == args.len(),
            spec_parse_args(av.take(i as int)) == Ok::<ComponentArgsView, ParseErrorView>(acc@),
        decreases args.len() - i,
    {
        let a = &args[i];
        proof {
            assert(av.take(i + 1).drop_last() =~= av.take(i as int));
            assert(av.take(i + 1).last() == av[i as int]);
            assert(av[i as int] == a@);
        }
        if str_eq(a.name.as_str(), "tag") {
            match &a.value {
                ArgValue::Text(t) => {
                    acc.tag = Some(t.clone());
                },
                ArgValue::Flag(_) => {
                    proof {
                        lemma_parse_err_persists(av, i + 1);
                    }
                    return Err(ParseError::ExpectedText(a.name.clone()));
                },
            }
        } else if str_eq(a.name.as_str(), "dynamic_tag") {
            match &a.value {
                ArgValue::Flag(b) => {
                    acc.dynamic_tag = Some(*b);
                },
                ArgValue::Text(_) => {
                    proof {
                        lemma_parse_err_persists(av, i + 1);
                    }
                    return Err(ParseError::ExpectedFlag(a.name.clone()));
                },
            }
        } else if str_eq(a.name.as_str(), "no_children") {
            match &a.value {
                ArgValue::Flag(b) => {
                    acc.no_children = Some(*b);
                },
                ArgValue::Text(_) => {
                    proof {
                        lemma_parse_err_persists(av, i + 1);
                    }
                    return Err(ParseError::ExpectedFlag(a.name.clone()));
                },
            }
        } else {
            proof {
                lemma_parse_err_persists(av, i + 1);
            }
            return Err(ParseError::UnknownProperty(a.name.clone()));
        }
        i += 1;
    }
    proof {
        assert(av.take(args.len() as int) =~= av);
    }
    Ok(acc)
}

/// The shape of a field's declared type, as the compiler reads it: the
/// head of the type path together with the head of its first type
/// argument, or a type that is not a path at all.
#[derive(Debug)]
pub enum FieldTy {
    Path { head: String, arg: Option<String> },
    NotPath,
}

/// What a field's type shape holds.
pub enum FieldTyView {
    Path { head: Seq<char>, arg: Option<Seq<char>> },
    NotPath,
}

impl View for FieldTy {
    type V = FieldTyView;

    open spec fn view(&self) -> FieldTyView {
        match self {
            FieldTy::Path { head, arg } => FieldTyView::Path {
                head: head@,
                arg: match arg {
                    Some(a) => Some(a@),
                    None => None,
                },
            },
            FieldTy::NotPath => FieldTyView::NotPath,
        }
    }
}

/// One declared field of a property record.
#[derive(Debug)]
pub struct FieldSpec {
    pub name: String,
    pub ty: FieldTy,
    pub args: Option<Vec<RawArg>>,
}

/// What a declared field holds.
pub struct FieldSpecView {
    pub name: Seq<char>,
    pub ty: FieldTyView,
    pub args: Option<Seq<RawArgView>>,
}

impl View for FieldSpec {
    type V = FieldSpecView;

    open spec fn view(&self) -> FieldSpecView {
        FieldSpecView {
            name: self.name@,
            ty: self.ty@,
            args: match &self.args {
                Some(a) => Some(a.deep_view()),
                None => None,
            },
        }
    }
}

impl DeepView for FieldSpec {
    type V = FieldSpecView;

    open spec fn deep_view(&self) -> FieldSpecView {
        self@
    }
}

/// A property record: the record type's name, its component annotation if
/// any, and its declared fields in declaration order.
#[derive(Debug)]
pub struct RecordSpec {
    pub ident: String,
    pub args: Option<Vec<RawArg>>,
    pub fields: Vec<FieldSpec>,
}

/// What a property record holds.
pub struct RecordSpecView {
    pub ident: Seq<char>,
    pub args: Option<Seq<RawArgView>>,
    pub fields: Seq<FieldSpecView>,
}

impl View for RecordSpec {
    type V = RecordSpecView;

    open spec fn view(&self) -> RecordSpecView {
        RecordSpecView {
            ident: self.ident@,
            args: match &self.args {
                Some(a) => Some(a.deep_view()),
                None => None,
            },
            fields: self.fields.deep_view(),
        }
    }
}

} // verus!

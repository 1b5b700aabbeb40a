//! The model of ASN.1 definitions and its Rust counterpart.
use vstd::prelude::*;

pub mod parse;
pub mod protobuf;
pub mod rust;
pub mod sql;

use crate::parser::Token;

verus! {

/// Why ASN.1 tokens could not be read as a model, with the token at fault where there is one.
#[derive(Debug, PartialOrd, PartialEq)]
pub enum Error {
    ExpectedText(Token),
    ExpectedTextGot(String, Token),
    ExpectedSeparator(Token),
    ExpectedSeparatorGot(char, Token),
    UnexpectedToken(Token),
    MissingModuleName,
    UnexpectedEndOfStream,
    InvalidRangeValue(Token),
    InvalidNumberForEnumVariant(Token),
}

impl Error {
    /// The number of an enumeration's variant is not a number.
    pub fn invalid_number_for_enum_variant(token: Token) -> (e: Self)
        ensures
            e == Error::InvalidNumberForEnumVariant(token),
    {
        Error::InvalidNumberForEnumVariant(token)
    }

    /// A bound of a range is not a number.
    pub fn invalid_range_value(token: Token) -> (e: Self)
        ensures
            e == Error::InvalidRangeValue(token),
    {
        Error::InvalidRangeValue(token)
    }

    /// A text was expected.
    pub fn no_text(token: Token) -> (e: Self)
        ensures
            e == Error::ExpectedText(token),
    {
        Error::ExpectedText(token)
    }

    /// The text `text` was expected.
    pub fn expected_text(text: String, token: Token) -> (e: Self)
        ensures
            e == Error::ExpectedTextGot(text, token),
    {
        Error::ExpectedTextGot(text, token)
    }

    /// A separator was expected.
    pub fn no_separator(token: Token) -> (e: Self)
        ensures
            e == Error::ExpectedSeparator(token),
    {
        Error::ExpectedSeparator(token)
    }

    /// The separator `separator` was expected.
    pub fn expected_separator(separator: char, token: Token) -> (e: Self)
        ensures
            e == Error::ExpectedSeparatorGot(separator, token),
    {
        Error::ExpectedSeparatorGot(separator, token)
    }

    /// The token does not fit where it stands.
    pub fn unexpected_token(token: Token) -> (e: Self)
        ensures
            e == Error::UnexpectedToken(token),
    {
        Error::UnexpectedToken(token)
    }

    /// The tokens ended too early.
    pub fn unexpected_end_of_stream() -> (e: Self)
        ensures
            e == Error::UnexpectedEndOfStream,
    {
        Error::UnexpectedEndOfStream
    }
}

/// A module of definitions: its name, its imports and its definitions of type `T`.
#[derive(Debug, Clone)]
pub struct Model<T> {
    pub name: String,
    pub imports: Vec<Import>,
    pub definitions: Vec<Definition<T>>,
}

impl<T> Default for Model<T> {
    fn default() -> (m: Self)
        ensures
            m.name@ == Seq::<char>::empty(),
            m.imports@ == Seq::<Import>::empty(),
            m.definitions@ == Seq::<Definition<T>>::empty(),
    {
        Model { name: String::new(), imports: Vec::new(), definitions: Vec::new() }
    }
}

/// What a module imports from another one.
#[derive(Debug, Clone, PartialOrd, PartialEq)]
pub struct Import {
    pub what: Vec<String>,
    pub from: String,
}

impl Default for Import {
    fn default() -> (i: Self)
        ensures
            i.what@ == Seq::<String>::empty(),
            i.from@ == Seq::<char>::empty(),
    {
        Import { what: Vec::new(), from: String::new() }
    }
}

/// A named alternative of a choice.
#[derive(Debug, PartialOrd, PartialEq)]
pub struct ChoiceEntry(pub String, pub Asn);

/// An inclusive range of values.
#[derive(Debug, Clone, Copy, PartialOrd, PartialEq)]
pub struct Range<T>(pub T, pub T);

/// A named definition.
#[derive(Debug, Clone, PartialOrd, PartialEq)]
pub struct Definition<T>(pub String, pub T);

/// A field of a sequence: its name, its type and whether it may be absent.
#[derive(Debug, PartialOrd, PartialEq)]
pub struct Field<T> {
    pub name: String,
    pub role: T,
    pub optional: bool,
}

/// An ASN.1 type.
#[derive(Debug, PartialOrd, PartialEq)]
pub enum Asn {
    Boolean,
    Integer(Option<Range<i64>>),
    UTF8String,
    OctetString,
    SequenceOf(Box<Asn>),
    Sequence(Vec<Field<Asn>>),
    Enumerated(Enumerated),
    Choice(Vec<ChoiceEntry>),
    TypeReference(String),
}

/// The variants of an enumeration, and the index of the last one before an extension marker,
/// if there is one.
#[derive(Debug, Clone, PartialOrd, PartialEq)]
pub struct Enumerated {
    pub(crate) variants: Vec<EnumeratedVariant>,
    pub(crate) default: Option<usize>,
}

/// A variant of an enumeration, with its number if one is given.
#[derive(Debug, Clone, PartialOrd, PartialEq)]
pub struct EnumeratedVariant {
    pub(crate) name: String,
    pub(crate) number: Option<usize>,
}

impl Enumerated {
    /// The variants.
    pub closed spec fn variants_spec(&self) -> Seq<EnumeratedVariant> {
        self.variants@
    }

    /// The index of the last variant before the extension marker.
    pub closed spec fn default_spec(&self) -> Option<usize> {
        self.default
    }

    /// An enumeration of the given variants.
    pub fn new(variants: Vec<EnumeratedVariant>, default: Option<usize>) -> (e: Self)
        ensures
            e.variants_spec() == variants@,
            e.default_spec() == default,
    {
        Enumerated { variants, default }
    }

    /// An enumeration of variants named `names`, without numbers nor extension marker.
    pub fn from_names(names: &[&str]) -> (e: Self)
        ensures
            e.variants_spec().len() == names@.len(),
            forall|i: int| 0 <= i < names@.len() ==> #[trigger] e.variants_spec()[i].name_spec()
                == names@[i]@ && e.variants_spec()[i].number_spec() is None,
            e.default_spec() is None,
    {
        let mut variants: Vec<EnumeratedVariant> = Vec::new();
        let mut i: usize = 0;
        while i < names.len()
            invariant
                0 <= i <= names@.len(),
                variants@.len() == i,
                forall|j: int| 0 <= j < i ==> #[trigger] variants@[j].name_spec() == names@[j]@
                    && variants@[j].number_spec() is None,
            decreases names@.len() - i,
        {
            variants.push(EnumeratedVariant::from_name(names[i]));
            i = i + 1;
        }
        Enumerated { variants, default: None }
    }

    /// The number of variants.
    pub fn len(&self) -> (n: usize)
        ensures
            n == self.variants_spec().len(),
    {
        self.variants.len()
    }

    /// Whether there is no variant.
    pub fn is_empty(&self) -> (b: bool)
        ensures
            b == (self.variants_spec().len() == 0),
    {
        self.variants.len() == 0
    }

    /// The variants.
    pub fn variants(&self) -> (v: &[EnumeratedVariant])
        ensures
            v@ == self.variants_spec(),
    {
        self.variants.as_slice()
    }

    /// The last variant before the extension marker, with its index, when the index names a
    /// variant.
    pub fn default(&self) -> (d: Option<(usize, &EnumeratedVariant)>)
        ensures
            match self.default_spec() {
                Some(index) => if index < self.variants_spec().len() {
                    d is Some && d->Some_0.0 == index && *d->Some_0.1 == self.variants_spec()[index as int]
                } else {
                    d is None
                },
                None => d is None,
            },
    {
        match self.default {
            Some(index) => if index < self.variants.len() {
                Some((index, &self.variants[index]))
            } else {
                None
            },
            None => None,
        }
    }
}

impl EnumeratedVariant {
    /// The name.
    pub closed spec fn name_spec(&self) -> Seq<char> {
        self.name@
    }

    /// The number, if one is given.
    pub closed spec fn number_spec(&self) -> Option<usize> {
        self.number
    }

    /// A variant named `name` with the given number.
    pub fn new(name: String, number: Option<usize>) -> (v: Self)
        ensures
            v.name_spec() == name@,
            v.number_spec() == number,
    {
        EnumeratedVariant { name, number }
    }

    /// A variant named `name` without number.
    pub fn from_name(name: &str) -> (v: Self)
        ensures
            v.name_spec() == name@,
            v.number_spec() is None,
    {
        EnumeratedVariant { name: String::from_str(name), number: None }
    }

    /// The name.
    pub fn name(&self) -> (n: &str)
        ensures
            n@ == self.name_spec(),
    {
        self.name.as_str()
    }

    /// The number, if one is given.
    pub fn number(&self) -> (n: Option<usize>)
        ensures
            n == self.number_spec(),
    {
        self.number
    }
}

/// The tag of an ASN.1 type: its class and its number within the class.
#[derive(Debug, Clone, Copy, PartialEq, Eq, Structural)]
pub enum Tag {
    Universal(usize),
    Application(usize),
    ContextSpecific(usize),
    Private(usize),
}

impl Tag {
    /// The number of the tag within its class.
    pub fn value(&self) -> (v: usize)
        ensures
            v == match *self {
                Tag::Universal(n) => n,
                Tag::Application(n) => n,
                Tag::ContextSpecific(n) => n,
                Tag::Private(n) => n,
            },
    {
        match self {
            Tag::Universal(n) => *n,
            Tag::Application(n) => *n,
            Tag::ContextSpecific(n) => *n,
            Tag::Private(n) => *n,
        }
    }
}

/// `s` without `suffix` at its end, if it ends so.
pub open spec fn without_suffix(s: Seq<char>, suffix: Seq<char>) -> Seq<char> {
    if s.len() >= suffix.len() && s.subrange(s.len() - suffix.len(), s.len() as int) == suffix {
        s.subrange(0, s.len() - suffix.len())
    } else {
        s
    }
}

/// A module name without a trailing `_Module`, and then without a trailing `Module`.
pub open spec fn nice_name(s: Seq<char>) -> Seq<char> {
    without_suffix(without_suffix(s, seq!['_', 'M', 'o', 'd', 'u', 'l', 'e']), seq!['M', 'o', 'd', 'u', 'l', 'e'])
}

/// `name` without `suffix` at its end, if it ends so.
fn strip_suffix(name: &str, suffix: &str) -> (out: String)
    ensures
        out@ == without_suffix(name@, suffix@),
{
    let chars = crate::parser::chars_of(name);
    let tail = crate::parser::chars_of(suffix);
    let n = chars.len();
    let k = tail.len();
    let mut ends = n >= k;
    if ends {
        let mut j: usize = 0;
        while j < k
            invariant
                n == name@.len(),
                k == suffix@.len(),
                n >= k,
                chars@ == name@,
                tail@ == suffix@,
                0 <= j <= k,
                ends == forall|m: int| 0 <= m < j ==> name@[n - k + m] == suffix@[m],
            decreases k - j,
        {
            if chars[n - k + j] != tail[j] {
                ends = false;
            }
            j = j + 1;
        }
        assert(ends == (name@.subrange(n - k, n as int) =~= suffix@));
    }
    let keep = if ends {
        n - k
    } else {
        n
    };
    let mut out = String::new();
    let mut i: usize = 0;
    while i < keep
        invariant
            0 <= i <= keep <= n,
            n == name@.len(),
            chars@ == name@,
            out@ == name@.take(i as int),
        decreases keep - i,
    {
        out.push(chars[i]);
        assert(out@ =~= name@.take(i + 1));
        i = i + 1;
    }
    assert(name@.take(n as int) =~= name@);
    out
}

/// `name` without a trailing `_Module`, and then without a trailing `Module`.
fn make_name_nice(name: &str) -> (out: String)
    ensures
        out@ == nice_name(name@),
{
    proof {
        reveal_strlit("_Module");
        reveal_strlit("Module");
        assert("_Module"@ =~= seq!['_', 'M', 'o', 'd', 'u', 'l', 'e']);
        assert("Module"@ =~= seq!['M', 'o', 'd', 'u', 'l', 'e']);
    }
    let first = strip_suffix(name, "_Module");
    strip_suffix(first.as_str(), "Module")
}

impl Model<Asn> {
    /// An empty model named `name`, with the name made nice (see [`Model::make_names_nice`]).
    pub fn new(name: String) -> (m: Self)
        ensures
            m.name@ == nice_name(name@),
            m.imports@ == Seq::<Import>::empty(),
            m.definitions@ == Seq::<Definition<Asn>>::empty(),
    {
        let mut model = Model { name, imports: Vec::new(), definitions: Vec::new() };
        model.make_names_nice();
        assert(model.imports@ =~= Seq::<Import>::empty());
        model
    }

    /// Removes a trailing `_Module` and then a trailing `Module` from the name of the model and
    /// from the names of the modules it imports from.
    pub fn make_names_nice(&mut self)
        ensures
            final(self).name@ == nice_name(old(self).name@),
            final(self).definitions@ == old(self).definitions@,
            final(self).imports@.len() == old(self).imports@.len(),
            forall|i: int| 0 <= i < old(self).imports@.len() ==> #[trigger] final(self).imports@[i].from@
                == nice_name(old(self).imports@[i].from@) && final(self).imports@[i].what
                == old(self).imports@[i].what,
    {
        self.name = make_name_nice(self.name.as_str());
        let mut imports: Vec<Import> = Vec::new();
        std::mem::swap(&mut imports, &mut self.imports);
        let ghost old_imports = imports@;
        let mut done: Vec<Import> = Vec::new();
        while imports.len() > 0
            invariant
                done@.len() + imports@.len() == old_imports.len(),
                imports@ == old_imports.subrange(done@.len() as int, old_imports.len() as int),
                forall|i: int| 0 <= i < done@.len() ==> #[trigger] done@[i].from@ == nice_name(
                    old_imports[i].from@,
                ) && done@[i].what == old_imports[i].what,
            decreases imports@.len(),
        {
            let import = imports.remove(0);
            let from = make_name_nice(import.from.as_str());
            done.push(Import { what: import.what, from });
            assert(imports@ =~= old_imports.subrange(done@.len() as int, old_imports.len() as int));
        }
        self.imports = done;
    }
}

} // verus!

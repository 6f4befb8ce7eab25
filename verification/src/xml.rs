//! A small XML reader built from the parser combinators, with a
//! hand-written recursive-descent core for nested elements. The grammar is
//! specified by spec functions over character sequences; every parser's
//! result is pinned to that grammar.
use crate::parsers::{str_eq, ParseResult, Parser, ParsingError};
use vstd::prelude::*;

verus! {

/// Either raw text or child elements.
#[derive(Debug, PartialEq, Eq)]
pub enum DataOrElements {
    Data(String),
    Elements(Vec<Element>),
}

/// An XML element: name, attributes, and contents.
#[derive(Debug, PartialEq, Eq)]
pub struct Element {
    pub name: String,
    pub attributes: Vec<(String, String)>,
    pub data_or_elements: DataOrElements,
}

/// The view of element contents.
pub enum DataOrElementsV {
    Data(Seq<char>),
    Elements(Seq<ElementV>),
}

/// The view of an element.
pub struct ElementV {
    pub name: Seq<char>,
    pub attributes: Seq<(Seq<char>, Seq<char>)>,
    pub data_or_elements: DataOrElementsV,
}

/// The views of a sequence of elements.
pub open spec fn elems_deep(s: Seq<Element>) -> Seq<ElementV>
    decreases s,
{
    if s.len() == 0 {
        Seq::empty()
    } else {
        elems_deep(s.drop_last()).push(s.last().deep_view())
    }
}

/// `elems_deep` maps the views elementwise.
pub proof fn lemma_elems_deep(s: Seq<Element>)
    ensures
        elems_deep(s).len() == s.len(),
        forall|i: int| 0 <= i < s.len() ==> #[trigger] elems_deep(s)[i] == s[i].deep_view(),
    decreases s.len(),
{
    if s.len() == 0 {
    } else {
        lemma_elems_deep(s.drop_last());
        assert(elems_deep(s) == elems_deep(s.drop_last()).push(s.last().deep_view()));
        assert forall|i: int| 0 <= i < s.len() implies #[trigger] elems_deep(s)[i]
            == s[i].deep_view() by {
            if i < s.len() - 1 {
                assert(s.drop_last()[i] == s[i]);
                assert(elems_deep(s)[i] == elems_deep(s.drop_last())[i]);
            } else {
                assert(s.last() == s[i]);
            }
        }
    }
}

impl DeepView for DataOrElements {
    type V = DataOrElementsV;

    open spec fn deep_view(&self) -> DataOrElementsV
        decreases self,
    {
        match self {
            DataOrElements::Data(s) => DataOrElementsV::Data(s.deep_view()),
            DataOrElements::Elements(v) => DataOrElementsV::Elements(elems_deep(v.view())),
        }
    }
}

impl DeepView for Element {
    type V = ElementV;

    open spec fn deep_view(&self) -> ElementV
        decreases self,
    {
        ElementV {
            name: self.name.deep_view(),
            attributes: self.attributes.deep_view(),
            data_or_elements: self.data_or_elements.deep_view(),
        }
    }
}

/// Ways reading a parsed element can fail.
#[derive(Clone, Debug, Eq, PartialEq)]
pub enum ElementError {
    CantGetAttribValue(String),
    CantGetChildByAttrib(String, String),
    CantGetChildByName(String),
    CantGetAsData,
}

/// Some child's attribute list contains the pair, and the view `cv` is that
/// child's.
pub open spec fn child_with_attrib(
    children: Seq<Element>,
    cv: ElementV,
    an: Seq<char>,
    av: Seq<char>,
) -> bool {
    exists|i: int, j: int|
        0 <= i < children.len() && 0 <= j < children[i].deep_view().attributes.len() && cv
            == children[i].deep_view() && #[trigger] children[i].deep_view().attributes[j] == (
        an,
        av,
        )
}

/// Some child is named `n`.
pub open spec fn some_child_named(children: Seq<Element>, n: Seq<char>) -> bool {
    exists|i: int| 0 <= i < children.len() && (#[trigger] children[i]).deep_view().name == n
}

/// `cv` is the first child named `n`.
pub open spec fn first_child_named(children: Seq<Element>, cv: ElementV, n: Seq<char>) -> bool {
    exists|i: int|
        0 <= i < children.len() && cv == (#[trigger] children[i]).deep_view()
            && children[i].deep_view().name == n && (forall|j: int|
            0 <= j < i ==> children[j].deep_view().name != n)
}

impl Element {
    /// The value of the attribute with the given name, if present; the
    /// first match wins.
    pub fn get_attrib_value<'a>(&'a self, expected_attrib_name: &str) -> (r: Result<
        &'a str,
        ElementError,
    >)
        ensures
            (exists|i: int|
                0 <= i < self.attributes.deep_view().len()
                    && self.attributes.deep_view()[i].0 == expected_attrib_name@) <==> r is Ok,
            r matches Ok(v) ==> exists|i: int|
                0 <= i < self.attributes.deep_view().len()
                    && #[trigger] self.attributes.deep_view()[i].0 == expected_attrib_name@
                    && v@ == self.attributes.deep_view()[i].1 && forall|j: int|
                    0 <= j < i ==> self.attributes.deep_view()[j].0 != expected_attrib_name@,
    {
        let n = self.attributes.len();
        let mut k: usize = 0;
        while k < n
            invariant
                n == self.attributes.len(),
                k <= n,
                forall|j: int|
                    0 <= j < k ==> #[trigger] self.attributes.deep_view()[j].0
                        != expected_attrib_name@,
            decreases n - k,
        {
            let pair = &self.attributes[k];
            if str_eq(pair.0.as_str(), expected_attrib_name) {
                proof {
                    assert(self.attributes.deep_view()[k as int].0 == expected_attrib_name@);
                }
                return Ok(self.attributes[k].1.as_str());
            }
            k = k + 1;
        }
        Err(ElementError::CantGetAttribValue(crate::parsers::str_to_owned(expected_attrib_name)))
    }

    /// The first child that carries the given attribute name and value.
    pub fn get_child_by_attrib(&self, attrib: (&str, String)) -> (r: Result<&Element, ElementError>)
        ensures
            r matches Ok(c) ==> (self.data_or_elements matches DataOrElements::Elements(children)
                && child_with_attrib(children@, c.deep_view(), attrib.0@, attrib.1@)),
    {
        if let DataOrElements::Elements(children) = &self.data_or_elements {
            let n = children.len();
            let mut k: usize = 0;
            while k < n
                invariant
                    n == children.len(),
                    k <= n,
                    self.data_or_elements == DataOrElements::Elements(*children),
                decreases n - k,
            {
                let m = children[k].attributes.len();
                let mut a: usize = 0;
                while a < m
                    invariant
                        k < children.len(),
                        m == children[k as int].attributes.len(),
                        a <= m,
                        self.data_or_elements == DataOrElements::Elements(*children),
                    decreases m - a,
                {
                    let p = &children[k].attributes[a];
                    if str_eq(p.0.as_str(), attrib.0) && str_eq(p.1.as_str(), attrib.1.as_str()) {
                        proof {
                            lemma_vec_deep(&children[k as int].attributes);
                            assert(children[k as int].attributes@[a as int].deep_view() == (
                            attrib.0@,
                            attrib.1@,
                            ));
                            assert(children[k as int].deep_view().attributes[a as int] == (
                            attrib.0@,
                            attrib.1@,
                            ));
                            assert(children[k as int].deep_view().attributes.len() == children[
                                k as int
                            ].attributes@.len());
                            assert((&children[k as int]).deep_view() == children[
                                k as int
                            ].deep_view());
                            assert(child_with_attrib(
                                children@,
                                (&children[k as int]).deep_view(),
                                attrib.0@,
                                attrib.1@,
                            ));
                        }
                        return Ok(&children[k]);
                    }
                    a = a + 1;
                }
                k = k + 1;
            }
        }
        Err(ElementError::CantGetChildByAttrib(crate::parsers::str_to_owned(attrib.0), attrib.1))
    }

    /// The first child with the given name.
    pub fn get_child_by_name(&self, name: &str) -> (r: Result<&Element, ElementError>)
        ensures
            r matches Ok(c) ==> (self.data_or_elements matches DataOrElements::Elements(children)
                && first_child_named(children@, c.deep_view(), name@)),
            (self.data_or_elements matches DataOrElements::Elements(children) && some_child_named(
                children@,
                name@,
            )) ==> r is Ok,
    {
        if let DataOrElements::Elements(children) = &self.data_or_elements {
            let n = children.len();
            let mut k: usize = 0;
            while k < n
                invariant
                    n == children.len(),
                    k <= n,
                    self.data_or_elements == DataOrElements::Elements(*children),
                    forall|j: int|
                        0 <= j < k ==> (#[trigger] children@[j]).deep_view().name != name@,
                decreases n - k,
            {
                if str_eq(children[k].name.as_str(), name) {
                    proof {
                        assert(0 <= k < children@.len() && (children@[k as int]).deep_view().name
                            == name@);
                        assert(some_child_named(children@, name@));
                        assert(first_child_named(
                            children@,
                            (&children[k as int]).deep_view(),
                            name@,
                        ));
                    }
                    return Ok(&children[k]);
                }
                k = k + 1;
            }
        }
        proof {
            match &self.data_or_elements {
                DataOrElements::Elements(cs) => {
                    assert(!some_child_named(cs@, name@));
                },
                _ => {},
            }
        }
        Err(ElementError::CantGetChildByName(crate::parsers::str_to_owned(name)))
    }

    /// The raw text of a data element.
    pub fn get_as_data(&self) -> (r: Result<&str, ElementError>)
        ensures
            self.data_or_elements matches DataOrElements::Data(d) <==> r is Ok,
            r matches Ok(s) ==> (self.data_or_elements matches DataOrElements::Data(d) && s@
                == d@),
    {
        match &self.data_or_elements {
            DataOrElements::Data(data) => Ok(data.as_str()),
            DataOrElements::Elements(_) => Err(ElementError::CantGetAsData),
        }
    }
}

/// The deep view of a vector is the sequence of deep views.
proof fn lemma_vec_deep<T: DeepView>(v: &Vec<T>)
    ensures
        v.deep_view().len() == v@.len(),
        forall|i: int| 0 <= i < v@.len() ==> v.deep_view()[i] == (#[trigger] v@[i]).deep_view(),
{
    assert forall|i: int| 0 <= i < v@.len() implies v.deep_view()[i] == (
    #[trigger] v@[i]).deep_view() by {}
}

// -- character classes and scanning specs ---------------------------------

/// ASCII letters start a name.
pub open spec fn is_ident_start(c: char) -> bool {
    ('a' <= c && c <= 'z') || ('A' <= c && c <= 'Z')
}

/// Letters, digits, dashes, underscores and colons continue a name.
pub open spec fn is_ident_char(c: char) -> bool {
    is_ident_start(c) || ('0' <= c && c <= '9') || c == '-' || c == '_' || c == ':'
}

/// ASCII whitespace.
pub open spec fn is_ws(c: char) -> bool {
    c == ' ' || c == '\t' || c == '\n' || c == '\r'
}

/// The first index at or after `i` that does not continue a name.
pub open spec fn ident_end(s: Seq<char>, i: int) -> int
    decreases s.len() - i,
{
    if 0 <= i < s.len() && is_ident_char(s[i]) {
        ident_end(s, i + 1)
    } else {
        i
    }
}

/// The first index at or after `i` that is not whitespace.
pub open spec fn ws_end(s: Seq<char>, i: int) -> int
    decreases s.len() - i,
{
    if 0 <= i < s.len() && is_ws(s[i]) {
        ws_end(s, i + 1)
    } else {
        i
    }
}

/// Scanning a name from one position further along is scanning the tail.
proof fn lemma_ident_end_shift(s: Seq<char>, i: int)
    requires
        1 <= i,
        s.len() >= 1,
    ensures
        ident_end(s, i) == 1 + ident_end(s.skip(1), i - 1),
    decreases s.len() - i,
{
    assert(s.skip(1) =~= s.subrange(1, s.len() as int));
    if 0 <= i < s.len() && is_ident_char(s[i]) {
        assert(s.skip(1)[i - 1] == s[i]);
        lemma_ident_end_shift(s, i + 1);
    } else {
        if 0 <= i - 1 < s.len() - 1 {
            assert(s.skip(1)[i - 1] == s[i]);
        }
    }
}

/// A name parser: an ASCII letter, then name characters.
pub struct Identifier {}

impl Parser<String> for Identifier {
    open spec fn ok(&self, input: Seq<char>) -> bool {
        input.len() > 0 && is_ident_start(input[0])
    }

    open spec fn rest(&self, input: Seq<char>) -> Seq<char> {
        input.skip(ident_end(input, 1))
    }

    open spec fn err(&self, input: Seq<char>) -> Seq<char> {
        input
    }

    open spec fn value(&self, input: Seq<char>) -> Seq<char> {
        input.subrange(0, ident_end(input, 1))
    }

    fn parse_chars(&self, chars: &Vec<char>, pos: usize) -> (r: Result<(usize, String), usize>) {
        let clen = chars.len();
        if pos >= clen {
            return Err(pos);
        }
        let c0 = chars[pos];
        if !(('a' <= c0 && c0 <= 'z') || ('A' <= c0 && c0 <= 'Z')) {
            return Err(pos);
        }
        let e = scan_ident(chars, pos + 1);
        proof {
            lemma_ident_end_shift(chars@.skip(pos as int), 1);
            assert(chars@.skip(pos as int).skip(1) =~= chars@.skip(pos + 1));
            assert(ident_end(chars@.skip(pos as int), 1) == e - pos);
            assert(chars@.skip(e as int) =~= chars@.skip(pos as int).skip(e - pos));
        }
        let name = crate::parsers::string_range(chars, pos, e);
        proof {
            assert(chars@.subrange(pos as int, e as int) =~= chars@.skip(pos as int).subrange(
                0,
                e - pos,
            ));
        }
        Ok((e, name))
    }
}

/// Scan from `k` to the end of the name characters. The result, relative to
/// any start `p <= k` whose characters up to `k` are name characters, is
/// `ident_end` of the suffix at `p`.
fn scan_ident(chars: &Vec<char>, k: usize) -> (e: usize)
    requires
        k <= chars@.len(),
    ensures
        k <= e <= chars@.len(),
        forall|j: int| k <= j < e ==> is_ident_char(chars@[j]),
        e < chars@.len() ==> !is_ident_char(chars@[e as int]),
        ident_end(chars@.skip(k as int), 0) == e - k,
{
    let clen = chars.len();
    let mut e = k;
    while e < clen
        invariant
            k <= e <= clen == chars@.len(),
            forall|j: int| k <= j < e ==> is_ident_char(chars@[j]),
            ident_end(chars@.skip(k as int), 0) == ident_end(chars@.skip(k as int), e - k),
        decreases clen - e,
    {
        let c = chars[e];
        let ident = ('a' <= c && c <= 'z') || ('A' <= c && c <= 'Z') || ('0' <= c && c <= '9') || c
            == '-' || c == '_' || c == ':';
        if !ident {
            proof {
                assert(chars@.skip(k as int)[e - k] == chars@[e as int]);
            }
            return e;
        }
        proof {
            assert(chars@.skip(k as int)[e - k] == chars@[e as int]);
        }
        e = e + 1;
    }
    e
}

// -- the XML grammar as spec functions -------------------------------------

/// The first index at or after `i` that is a double quote (or the end).
pub open spec fn nonq_end(s: Seq<char>, i: int) -> int
    decreases s.len() - i,
{
    if 0 <= i < s.len() && s[i] != '"' {
        nonq_end(s, i + 1)
    } else {
        i
    }
}

/// The first index at or after `i` that is a `<` (or the end).
pub open spec fn data_end(s: Seq<char>, i: int) -> int
    decreases s.len() - i,
{
    if 0 <= i < s.len() && s[i] != '<' {
        data_end(s, i + 1)
    } else {
        i
    }
}

/// The literal `l` begins the input.
pub open spec fn lit_ok(l: Seq<char>, input: Seq<char>) -> bool {
    input.len() >= l.len() && input.subrange(0, l.len() as int) == l
}

/// The input after the literal.
pub open spec fn lit_rest(l: Seq<char>, input: Seq<char>) -> Seq<char> {
    input.skip(l.len() as int)
}

/// A name begins the input.
pub open spec fn ident_ok(input: Seq<char>) -> bool {
    input.len() > 0 && is_ident_start(input[0])
}

/// The input after the name.
pub open spec fn ident_rest(input: Seq<char>) -> Seq<char> {
    input.skip(ident_end(input, 1))
}

/// The name itself.
pub open spec fn ident_val(input: Seq<char>) -> Seq<char> {
    input.subrange(0, ident_end(input, 1))
}

/// The input with leading whitespace dropped.
pub open spec fn ws_rest(input: Seq<char>) -> Seq<char> {
    input.skip(ws_end(input, 0))
}

/// A quoted string begins the input and is closed before the end.
pub open spec fn quoted_ok(input: Seq<char>) -> bool {
    input.len() >= 1 && input[0] == '"' && nonq_end(input, 1) < input.len()
}

/// The input after the closing quote.
pub open spec fn quoted_rest(input: Seq<char>) -> Seq<char> {
    input.skip(nonq_end(input, 1) + 1)
}

/// The characters between the quotes.
pub open spec fn quoted_val(input: Seq<char>) -> Seq<char> {
    input.subrange(1, nonq_end(input, 1))
}

/// `name="value"` begins the input.
pub open spec fn attr_pair_ok(input: Seq<char>) -> bool {
    &&& ident_ok(input)
    &&& lit_ok("="@, ident_rest(input))
    &&& quoted_ok(lit_rest("="@, ident_rest(input)))
}

/// The input after the attribute pair.
pub open spec fn attr_pair_rest(input: Seq<char>) -> Seq<char> {
    quoted_rest(lit_rest("="@, ident_rest(input)))
}

/// The attribute pair itself.
pub open spec fn attr_pair_val(input: Seq<char>) -> (Seq<char>, Seq<char>) {
    (ident_val(input), quoted_val(lit_rest("="@, ident_rest(input))))
}

/// One attribute step: at least one whitespace character, then a pair.
pub open spec fn attr_step_ok(input: Seq<char>) -> bool {
    input.len() > 0 && is_ws(input[0]) && attr_pair_ok(ws_rest(input))
}

/// As many whitespace-led attribute pairs as the input offers; never fails.
pub open spec fn attrs_spec(input: Seq<char>) -> (Seq<char>, Seq<(Seq<char>, Seq<char>)>)
    decreases input.len(),
{
    if !attr_step_ok(input) {
        (input, Seq::empty())
    } else {
        let r = attr_pair_rest(ws_rest(input));
        if r.len() >= input.len() {
            (input, Seq::empty())
        } else {
            let (fr, more) = attrs_spec(r);
            (fr, seq![attr_pair_val(ws_rest(input))] + more)
        }
    }
}

/// `<name attrs` begins the input.
pub open spec fn estart_ok(input: Seq<char>) -> bool {
    lit_ok("<"@, input) && ident_ok(lit_rest("<"@, input))
}

/// The input after the start, its name, and its attributes.
pub open spec fn estart_rest(input: Seq<char>) -> Seq<char> {
    attrs_spec(ident_rest(lit_rest("<"@, input))).0
}

pub open spec fn estart_name(input: Seq<char>) -> Seq<char> {
    ident_val(lit_rest("<"@, input))
}

pub open spec fn estart_attrs(input: Seq<char>) -> Seq<(Seq<char>, Seq<char>)> {
    attrs_spec(ident_rest(lit_rest("<"@, input))).1
}

/// A self-closing element, without surrounding whitespace.
pub open spec fn single_ok(input: Seq<char>) -> bool {
    estart_ok(input) && lit_ok("/>"@, estart_rest(input))
}

pub open spec fn single_rest(input: Seq<char>) -> Seq<char> {
    lit_rest("/>"@, estart_rest(input))
}

pub open spec fn single_val(input: Seq<char>) -> ElementV {
    ElementV {
        name: estart_name(input),
        attributes: estart_attrs(input),
        data_or_elements: DataOrElementsV::Elements(Seq::empty()),
    }
}

/// An opening tag, with surrounding whitespace trimmed.
pub open spec fn opening_ok(input: Seq<char>) -> bool {
    estart_ok(ws_rest(input)) && lit_ok(">"@, estart_rest(ws_rest(input)))
}

pub open spec fn opening_rest(input: Seq<char>) -> Seq<char> {
    ws_rest(lit_rest(">"@, estart_rest(ws_rest(input))))
}

pub open spec fn opening_val(input: Seq<char>) -> ElementV {
    ElementV {
        name: estart_name(ws_rest(input)),
        attributes: estart_attrs(ws_rest(input)),
        data_or_elements: DataOrElementsV::Elements(Seq::empty()),
    }
}

/// A closing tag with the expected name, whitespace trimmed.
pub open spec fn closing_ok(name: Seq<char>, input: Seq<char>) -> bool {
    let i1 = ws_rest(input);
    &&& lit_ok("</"@, i1)
    &&& ident_ok(lit_rest("</"@, i1))
    &&& lit_ok(">"@, ident_rest(lit_rest("</"@, i1)))
    &&& ident_val(lit_rest("</"@, i1)) == name
}

pub open spec fn closing_rest(name: Seq<char>, input: Seq<char>) -> Seq<char> {
    ws_rest(lit_rest(">"@, ident_rest(lit_rest("</"@, ws_rest(input)))))
}

/// Whitespace skipping never grows the input.
pub proof fn lemma_ws_end(s: Seq<char>, i: int)
    requires
        0 <= i <= s.len(),
    ensures
        i <= ws_end(s, i) <= s.len(),
    decreases s.len() - i,
{
    if i < s.len() && is_ws(s[i]) {
        lemma_ws_end(s, i + 1);
    }
}

/// A whole element: whitespace, a self-closing or parent element, and
/// trailing whitespace.
pub open spec fn element_ok(input: Seq<char>) -> bool
    decreases input.len(), 3int,
    via element_ok_decreases
{
    let i1 = ws_rest(input);
    single_ok(i1) || parent_ok(i1)
}

#[via_fn]
proof fn element_ok_decreases(input: Seq<char>) {
    lemma_ws_end(input, 0);
}

pub open spec fn element_rest(input: Seq<char>) -> Seq<char>
    decreases input.len(), 3int,
    via element_rest_decreases
{
    let i1 = ws_rest(input);
    if single_ok(i1) {
        ws_rest(single_rest(i1))
    } else {
        ws_rest(parent_rest(i1))
    }
}

#[via_fn]
proof fn element_rest_decreases(input: Seq<char>) {
    lemma_ws_end(input, 0);
}

pub open spec fn element_val(input: Seq<char>) -> ElementV
    decreases input.len(), 3int,
    via element_val_decreases
{
    let i1 = ws_rest(input);
    if single_ok(i1) {
        single_val(i1)
    } else {
        parent_val(i1)
    }
}

#[via_fn]
proof fn element_val_decreases(input: Seq<char>) {
    lemma_ws_end(input, 0);
}

/// An opening tag, contents, and the matching closing tag.
pub open spec fn parent_ok(input: Seq<char>) -> bool
    decreases input.len(), 2int,
{
    &&& opening_ok(input)
    &&& opening_rest(input).len() < input.len()
    &&& closing_ok(
        opening_val(input).name,
        doe_rest(opening_rest(input)),
    )
}

pub open spec fn parent_rest(input: Seq<char>) -> Seq<char>
    decreases input.len(), 2int,
{
    if opening_ok(input) && opening_rest(input).len() < input.len() {
        closing_rest(opening_val(input).name, doe_rest(opening_rest(input)))
    } else {
        input
    }
}

pub open spec fn parent_val(input: Seq<char>) -> ElementV
    decreases input.len(), 2int,
{
    if opening_ok(input) && opening_rest(input).len() < input.len() {
        ElementV {
            name: opening_val(input).name,
            attributes: opening_val(input).attributes,
            data_or_elements: doe_val(opening_rest(input)),
        }
    } else {
        opening_val(input)
    }
}

/// Contents of a parent: one or more child elements, or raw text up to the
/// next `<`. Never fails.
pub open spec fn doe_rest(input: Seq<char>) -> Seq<char>
    decreases input.len(), 9int,
{
    if element_ok(input) {
        let r1 = element_rest(input);
        if r1.len() >= input.len() {
            r1
        } else {
            elems_star_rest(r1)
        }
    } else {
        input.skip(data_end(input, 0))
    }
}

pub open spec fn doe_val(input: Seq<char>) -> DataOrElementsV
    decreases input.len(), 9int,
{
    if element_ok(input) {
        let r1 = element_rest(input);
        if r1.len() >= input.len() {
            DataOrElementsV::Elements(seq![element_val(input)])
        } else {
            DataOrElementsV::Elements(
                seq![element_val(input)] + elems_star_vals(r1),
            )
        }
    } else {
        DataOrElementsV::Data(input.subrange(0, data_end(input, 0)))
    }
}

/// Zero or more further child elements, stopping at the first failure or
/// non-consuming parse.
pub open spec fn elems_star_rest(input: Seq<char>) -> Seq<char>
    decreases input.len(), 5int,
{
    if !element_ok(input) || element_rest(input).len() >= input.len() {
        input
    } else {
        elems_star_rest(element_rest(input))
    }
}

pub open spec fn elems_star_vals(input: Seq<char>) -> Seq<ElementV>
    decreases input.len(), 5int,
{
    if !element_ok(input) || element_rest(input).len() >= input.len() {
        Seq::empty()
    } else {
        seq![element_val(input)] + elems_star_vals(element_rest(input))
    }
}

// -- executable scanning and recursive descent ------------------------------

/// Skip whitespace from `pos`.
fn scan_ws(chars: &Vec<char>, pos: usize) -> (e: usize)
    requires
        pos <= chars@.len(),
    ensures
        pos <= e <= chars@.len(),
        ws_end(chars@.skip(pos as int), 0) == e - pos,
        chars@.skip(e as int) == ws_rest(chars@.skip(pos as int)),
    decreases chars@.len() - pos,
{
    let clen = chars.len();
    let mut e = pos;
    while e < clen
        invariant
            pos <= e <= clen == chars@.len(),
            ws_end(chars@.skip(pos as int), 0) == ws_end(chars@.skip(pos as int), e - pos),
        decreases clen - e,
    {
        let c = chars[e];
        if !(c == ' ' || c == '\t' || c == '\n' || c == '\r') {
            proof {
                assert(chars@.skip(pos as int)[e - pos] == chars@[e as int]);
                assert(chars@.skip(e as int) =~= chars@.skip(pos as int).skip(e - pos));
            }
            return e;
        }
        proof {
            assert(chars@.skip(pos as int)[e - pos] == chars@[e as int]);
        }
        e = e + 1;
    }
    proof {
        assert(chars@.skip(e as int) =~= chars@.skip(pos as int).skip(e - pos));
    }
    e
}

/// Scan raw text up to the next `<` from `pos`.
fn scan_data(chars: &Vec<char>, pos: usize) -> (e: usize)
    requires
        pos <= chars@.len(),
    ensures
        pos <= e <= chars@.len(),
        data_end(chars@.skip(pos as int), 0) == e - pos,
{
    let clen = chars.len();
    let mut e = pos;
    while e < clen
        invariant
            pos <= e <= clen == chars@.len(),
            data_end(chars@.skip(pos as int), 0) == data_end(chars@.skip(pos as int), e - pos),
        decreases clen - e,
    {
        let c = chars[e];
        proof {
            assert(chars@.skip(pos as int)[e - pos] == chars@[e as int]);
        }
        if c == '<' {
            return e;
        }
        e = e + 1;
    }
    e
}

/// Scan a quoted string starting at `pos`.
fn scan_quoted(chars: &Vec<char>, pos: usize) -> (r: Result<(usize, String), usize>)
    requires
        pos <= chars@.len(),
    ensures
        ({
            let input = chars@.skip(pos as int);
            match r {
                Ok(p) => quoted_ok(input) && pos <= p.0 <= chars@.len() && chars@.skip(p.0 as int)
                    == quoted_rest(input) && p.1@ == quoted_val(input),
                Err(e) => !quoted_ok(input) && pos <= e <= chars@.len(),
            }
        }),
{
    let clen = chars.len();
    if pos >= clen {
        return Err(pos);
    }
    if chars[pos] != '"' {
        return Err(pos);
    }
    let mut e = pos + 1;
    while e < clen
        invariant
            pos + 1 <= e <= clen == chars@.len(),
            pos < clen,
            chars@[pos as int] == '"',
            nonq_end(chars@.skip(pos as int), 1) == nonq_end(chars@.skip(pos as int), e - pos),
            forall|j: int| pos + 1 <= j < e ==> chars@[j] != '"',
        decreases clen - e,
    {
        let c = chars[e];
        proof {
            assert(chars@.skip(pos as int)[e - pos] == chars@[e as int]);
        }
        if c == '"' {
            proof {
                assert(nonq_end(chars@.skip(pos as int), 1) == e - pos);
                assert(chars@.skip(e + 1) =~= chars@.skip(pos as int).skip(e - pos + 1));
                assert(chars@.subrange(pos + 1, e as int) =~= chars@.skip(pos as int).subrange(
                    1,
                    e - pos,
                ));
            }
            let s = crate::parsers::string_range(chars, pos + 1, e);
            return Ok((e + 1, s));
        }
        e = e + 1;
    }
    proof {
        assert(nonq_end(chars@.skip(pos as int), 1) == e - pos);
    }
    Err(pos)
}

/// Parse `name="value"` at `pos`.
fn parse_attr_pair_at(chars: &Vec<char>, pos: usize) -> (r: Result<(usize, (String, String)), usize>)
    requires
        pos <= chars@.len(),
    ensures
        ({
            let input = chars@.skip(pos as int);
            match r {
                Ok(p) => attr_pair_ok(input) && pos <= p.0 <= chars@.len() && chars@.skip(
                    p.0 as int,
                ) == attr_pair_rest(input) && (p.1.0@, p.1.1@) == attr_pair_val(input),
                Err(e) => !attr_pair_ok(input) && pos <= e <= chars@.len(),
            }
        }),
{
    let ident = Identifier {  };
    match ident.parse_chars(chars, pos) {
        Err(e) => Err(e),
        Ok((m, name)) => {
            let eq = crate::parsers::match_literal("=");
            match eq.parse_chars(chars, m) {
                Err(_) => Err(pos),
                Ok((m2, _)) => match scan_quoted(chars, m2) {
                    Err(_) => Err(pos),
                    Ok((m3, value)) => Ok((m3, (name, value))),
                },
            }
        },
    }
}

/// Parse whitespace-led attribute pairs at `pos`; never fails.
fn parse_attrs_at(chars: &Vec<char>, pos: usize) -> (r: (usize, Vec<(String, String)>))
    requires
        pos <= chars@.len(),
    ensures
        pos <= r.0 <= chars@.len(),
        chars@.skip(r.0 as int) == attrs_spec(chars@.skip(pos as int)).0,
        r.1.deep_view() == attrs_spec(chars@.skip(pos as int)).1,
    decreases chars@.len() - pos,
{
    let mut acc: Vec<(String, String)> = Vec::new();
    let mut cur = pos;
    loop
        invariant
            pos <= cur <= chars@.len(),
            attrs_spec(chars@.skip(pos as int)).0 == attrs_spec(chars@.skip(cur as int)).0,
            attrs_spec(chars@.skip(pos as int)).1 =~= acc.deep_view() + attrs_spec(
                chars@.skip(cur as int),
            ).1,
        ensures
            pos <= cur <= chars@.len(),
            chars@.skip(cur as int) == attrs_spec(chars@.skip(pos as int)).0,
            acc.deep_view() =~= attrs_spec(chars@.skip(pos as int)).1,
        decreases chars@.len() - cur,
    {
        let ghost input = chars@.skip(cur as int);
        let clen = chars.len();
        if cur >= clen {
            proof {
                assert(!attr_step_ok(input));
            }
            break ;
        }
        let c = chars[cur];
        if !(c == ' ' || c == '\t' || c == '\n' || c == '\r') {
            proof {
                assert(input[0] == c);
                assert(!attr_step_ok(input));
            }
            break ;
        }
        let w = scan_ws(chars, cur);
        match parse_attr_pair_at(chars, w) {
            Err(_) => {
                proof {
                    assert(chars@.skip(w as int) == ws_rest(input));
                    assert(!attr_step_ok(input));
                }
                break ;
            },
            Ok((m, pair)) => {
                proof {
                    assert(input[0] == c);
                    assert(chars@.skip(w as int) == ws_rest(input));
                    assert(attr_step_ok(input));
                    assert(chars@.skip(m as int) == attr_pair_rest(ws_rest(input)));
                }
                if m <= cur {
                    proof {
                        assert(chars@.skip(m as int).len() >= input.len());
                        assert(attr_pair_rest(ws_rest(input)).len() >= input.len());
                    }
                    break ;
                }
                proof {
                    assert(attr_pair_rest(ws_rest(input)).len() < input.len());
                    assert((pair.0@, pair.1@) == attr_pair_val(ws_rest(input)));
                }
                acc.push(pair);
                cur = m;
            },
        }
    }
    (cur, acc)
}

/// Parse `<name attrs` at `pos`.
fn parse_estart_at(chars: &Vec<char>, pos: usize) -> (r: Result<
    (usize, (String, Vec<(String, String)>)),
    usize,
>)
    requires
        pos <= chars@.len(),
    ensures
        ({
            let input = chars@.skip(pos as int);
            match r {
                Ok(p) => estart_ok(input) && pos <= p.0 <= chars@.len() && chars@.skip(p.0 as int)
                    == estart_rest(input) && p.1.0@ == estart_name(input) && p.1.1.deep_view()
                    == estart_attrs(input),
                Err(e) => !estart_ok(input) && pos <= e <= chars@.len(),
            }
        }),
{
    let lt = crate::parsers::match_literal("<");
    match lt.parse_chars(chars, pos) {
        Err(e) => {
            proof {
                reveal_strlit("<");
            }
            Err(e)
        },
        Ok((m, _)) => {
            proof {
                reveal_strlit("<");
            }
            let ident = Identifier {  };
            match ident.parse_chars(chars, m) {
                Err(_) => Err(pos),
                Ok((m2, name)) => {
                    let (m3, attrs) = parse_attrs_at(chars, m2);
                    Ok((m3, (name, attrs)))
                },
            }
        },
    }
}

/// Parse a self-closing element at `pos` (no surrounding whitespace).
fn parse_single_at(chars: &Vec<char>, pos: usize) -> (r: Result<(usize, Element), usize>)
    requires
        pos <= chars@.len(),
    ensures
        ({
            let input = chars@.skip(pos as int);
            match r {
                Ok(p) => single_ok(input) && pos <= p.0 <= chars@.len() && chars@.skip(p.0 as int)
                    == single_rest(input) && p.1.deep_view() == single_val(input),
                Err(e) => !single_ok(input) && pos <= e <= chars@.len(),
            }
        }),
{
    match parse_estart_at(chars, pos) {
        Err(e) => Err(e),
        Ok((m, (name, attrs))) => {
            let close = crate::parsers::match_literal("/>");
            match close.parse_chars(chars, m) {
                Err(_) => Err(pos),
                Ok((m2, _)) => {
                    let elem = Element {
                        name,
                        attributes: attrs,
                        data_or_elements: DataOrElements::Elements(Vec::new()),
                    };
                    proof {
                        assert(elems_deep(Seq::<Element>::empty()) =~= Seq::<ElementV>::empty());
                        assert(elem.data_or_elements.deep_view() == DataOrElementsV::Elements(
                            Seq::<ElementV>::empty(),
                        ));
                    }
                    Ok((m2, elem))
                },
            }
        },
    }
}

/// Parse an opening tag at `pos`, whitespace trimmed on both sides.
fn parse_opening_at(chars: &Vec<char>, pos: usize) -> (r: Result<(usize, Element), usize>)
    requires
        pos <= chars@.len(),
    ensures
        ({
            let input = chars@.skip(pos as int);
            match r {
                Ok(p) => opening_ok(input) && pos <= p.0 <= chars@.len() && chars@.skip(p.0 as int)
                    == opening_rest(input) && p.1.deep_view() == opening_val(input),
                Err(e) => !opening_ok(input) && pos <= e <= chars@.len(),
            }
        }),
{
    let w = scan_ws(chars, pos);
    match parse_estart_at(chars, w) {
        Err(e) => Err(e),
        Ok((m, (name, attrs))) => {
            let close = crate::parsers::match_literal(">");
            match close.parse_chars(chars, m) {
                Err(_) => Err(pos),
                Ok((m2, _)) => {
                    let m3 = scan_ws(chars, m2);
                    let elem = Element {
                        name,
                        attributes: attrs,
                        data_or_elements: DataOrElements::Elements(Vec::new()),
                    };
                    proof {
                        assert(elems_deep(Seq::<Element>::empty()) =~= Seq::<ElementV>::empty());
                    }
                    Ok((m3, elem))
                },
            }
        },
    }
}

/// Parse a closing tag with the expected name at `pos`.
fn parse_closing_at(chars: &Vec<char>, pos: usize, name: &str) -> (r: Result<usize, usize>)
    requires
        pos <= chars@.len(),
    ensures
        ({
            let input = chars@.skip(pos as int);
            match r {
                Ok(npos) => closing_ok(name@, input) && pos <= npos <= chars@.len() && chars@.skip(
                    npos as int,
                ) == closing_rest(name@, input),
                Err(e) => !closing_ok(name@, input) && pos <= e <= chars@.len(),
            }
        }),
{
    let w = scan_ws(chars, pos);
    let open = crate::parsers::match_literal("</");
    match open.parse_chars(chars, w) {
        Err(e) => Err(e),
        Ok((m, _)) => {
            let ident = Identifier {  };
            match ident.parse_chars(chars, m) {
                Err(_) => Err(pos),
                Ok((m2, parsed)) => {
                    let gt = crate::parsers::match_literal(">");
                    match gt.parse_chars(chars, m2) {
                        Err(_) => Err(pos),
                        Ok((m3, _)) => {
                            if str_eq(parsed.as_str(), name) {
                                let m4 = scan_ws(chars, m3);
                                Ok(m4)
                            } else {
                                Err(pos)
                            }
                        },
                    }
                },
            }
        },
    }
}

/// Parse one element at `pos`: leading whitespace, a self-closing or parent
/// element, trailing whitespace.
fn parse_element_at(chars: &Vec<char>, pos: usize) -> (r: Result<(usize, Element), usize>)
    requires
        pos <= chars@.len(),
    ensures
        ({
            let input = chars@.skip(pos as int);
            match r {
                Ok(p) => element_ok(input) && pos <= p.0 <= chars@.len() && chars@.skip(p.0 as int)
                    == element_rest(input) && p.1.deep_view() == element_val(input),
                Err(e) => !element_ok(input) && pos <= e <= chars@.len(),
            }
        }),
    decreases chars@.len() - pos, 3int,
{
    let w = scan_ws(chars, pos);
    match parse_single_at(chars, w) {
        Ok((m, elem)) => {
            let m2 = scan_ws(chars, m);
            Ok((m2, elem))
        },
        Err(_) => {
            match parse_parent_at(chars, w) {
                Ok((m, elem)) => {
                    let m2 = scan_ws(chars, m);
                    Ok((m2, elem))
                },
                Err(e) => Err(e),
            }
        },
    }
}

/// Parse an opening tag, contents and the matching closing tag at `pos`.
fn parse_parent_at(chars: &Vec<char>, pos: usize) -> (r: Result<(usize, Element), usize>)
    requires
        pos <= chars@.len(),
    ensures
        ({
            let input = chars@.skip(pos as int);
            match r {
                Ok(p) => parent_ok(input) && pos <= p.0 <= chars@.len() && chars@.skip(p.0 as int)
                    == parent_rest(input) && p.1.deep_view() == parent_val(input),
                Err(e) => !parent_ok(input) && pos <= e <= chars@.len(),
            }
        }),
    decreases chars@.len() - pos, 2int,
{
    match parse_opening_at(chars, pos) {
        Err(e) => Err(e),
        Ok((m, mut elem)) => {
            if m <= pos {
                proof {
                    assert(opening_rest(chars@.skip(pos as int)).len() >= chars@.skip(
                        pos as int,
                    ).len());
                }
                return Err(pos);
            }
            let (m2, doe) = parse_doe_at(chars, m);
            match parse_closing_at(chars, m2, elem.name.as_str()) {
                Err(_) => Err(pos),
                Ok(m3) => {
                    elem.data_or_elements = doe;
                    Ok((m3, elem))
                },
            }
        },
    }
}

/// Parse the contents of a parent at `pos`: child elements or raw text.
fn parse_doe_at(chars: &Vec<char>, pos: usize) -> (r: (usize, DataOrElements))
    requires
        pos <= chars@.len(),
    ensures
        pos <= r.0 <= chars@.len(),
        chars@.skip(r.0 as int) == doe_rest(chars@.skip(pos as int)),
        r.1.deep_view() == doe_val(chars@.skip(pos as int)),
    decreases chars@.len() - pos, 9int,
{
    let ghost input = chars@.skip(pos as int);
    match parse_element_at(chars, pos) {
        Err(_) => {
            let e = scan_data(chars, pos);
            proof {
                assert(chars@.skip(e as int) =~= chars@.skip(pos as int).skip(e - pos));
                assert(chars@.subrange(pos as int, e as int) =~= chars@.skip(pos as int).subrange(
                    0,
                    e - pos,
                ));
            }
            let s = crate::parsers::string_range(chars, pos, e);
            (e, DataOrElements::Data(s))
        },
        Ok((m, first)) => {
            let mut elems: Vec<Element> = Vec::new();
            let ghost firstv = first.deep_view();
            elems.push(first);
            if m <= pos {
                proof {
                    assert(element_rest(input).len() >= input.len());
                    lemma_elems_deep(elems@);
                    assert(elems.deep_view() =~= seq![firstv]);
                    assert(elems@.len() == 1);
                    assert(elems_deep(elems@) =~= seq![firstv]);
                }
                return (m, DataOrElements::Elements(elems));
            }
            let mut cur = m;
            proof {
                assert(element_rest(input).len() < input.len());
                lemma_elems_deep(elems@);
                assert(elems_deep(elems@) =~= seq![firstv]);
                assert(seq![firstv].skip(1) =~= Seq::<ElementV>::empty());
            }
            loop
                invariant
                    pos < m,
                    m <= cur <= chars@.len(),
                    elems_star_rest(chars@.skip(m as int)) == elems_star_rest(
                        chars@.skip(cur as int),
                    ),
                    elems_star_vals(chars@.skip(m as int)) =~= elems_deep(elems@).skip(1)
                        + elems_star_vals(chars@.skip(cur as int)),
                    elems@.len() >= 1,
                    elems_deep(elems@).len() == elems@.len(),
                    elems_deep(elems@)[0] == firstv,
                ensures
                    m <= cur <= chars@.len(),
                    chars@.skip(cur as int) == elems_star_rest(chars@.skip(m as int)),
                    elems_deep(elems@).skip(1) =~= elems_star_vals(chars@.skip(m as int)),
                    elems@.len() >= 1,
                    elems_deep(elems@)[0] == firstv,
                decreases chars@.len() - cur,
            {
                proof {
                    lemma_elems_deep(elems@);
                }
                match parse_element_at(chars, cur) {
                    Err(_) => {
                        break ;
                    },
                    Ok((m2, v2)) => {
                        if m2 <= cur {
                            proof {
                                assert(element_rest(chars@.skip(cur as int)).len() >= chars@.skip(
                                    cur as int,
                                ).len());
                            }
                            break ;
                        }
                        proof {
                            lemma_elems_deep(elems@.push(v2));
                            assert(elems_deep(elems@.push(v2)) =~= elems_deep(elems@).push(
                                v2.deep_view(),
                            ));
                        }
                        elems.push(v2);
                        cur = m2;
                    },
                }
            }
            proof {
                lemma_elems_deep(elems@);
                assert(elems_deep(elems@) =~= seq![firstv] + elems_star_vals(
                    chars@.skip(m as int),
                ));
            }
            (cur, DataOrElements::Elements(elems))
        },
    }
}

// -- public parsers ---------------------------------------------------------

/// An XML declaration `<?name attrs?>`, whitespace trimmed.
pub open spec fn xmldef_ok(input: Seq<char>) -> bool {
    let i1 = ws_rest(input);
    &&& lit_ok("<?"@, i1)
    &&& ident_ok(lit_rest("<?"@, i1))
    &&& lit_ok("?>"@, attrs_spec(ident_rest(lit_rest("<?"@, i1))).0)
}

pub open spec fn xmldef_rest(input: Seq<char>) -> Seq<char> {
    let i1 = ws_rest(input);
    ws_rest(lit_rest("?>"@, attrs_spec(ident_rest(lit_rest("<?"@, i1))).0))
}

pub open spec fn xmldef_val(input: Seq<char>) -> ElementV {
    let i1 = ws_rest(input);
    ElementV {
        name: ident_val(lit_rest("<?"@, i1)),
        attributes: attrs_spec(ident_rest(lit_rest("<?"@, i1))).1,
        data_or_elements: DataOrElementsV::Elements(Seq::empty()),
    }
}

/// Parse `<?name attrs?>` at `pos`, whitespace trimmed.
fn parse_xmldef_at(chars: &Vec<char>, pos: usize) -> (r: Result<(usize, Element), usize>)
    requires
        pos <= chars@.len(),
    ensures
        ({
            let input = chars@.skip(pos as int);
            match r {
                Ok(p) => xmldef_ok(input) && pos <= p.0 <= chars@.len() && chars@.skip(p.0 as int)
                    == xmldef_rest(input) && p.1.deep_view() == xmldef_val(input),
                Err(e) => !xmldef_ok(input) && pos <= e <= chars@.len(),
            }
        }),
{
    let w = scan_ws(chars, pos);
    let open = crate::parsers::match_literal("<?");
    match open.parse_chars(chars, w) {
        Err(e) => Err(e),
        Ok((m0, _)) => {
            let ident = Identifier {  };
            match ident.parse_chars(chars, m0) {
                Err(_) => Err(pos),
                Ok((m1, name)) => {
                    let (m2, attrs) = parse_attrs_at(chars, m1);
                    let close = crate::parsers::match_literal("?>");
                    match close.parse_chars(chars, m2) {
                        Err(_) => Err(pos),
                        Ok((m3, _)) => {
                            let m4 = scan_ws(chars, m3);
                            let elem = Element {
                                name,
                                attributes: attrs,
                                data_or_elements: DataOrElements::Elements(Vec::new()),
                            };
                            proof {
                                assert(elems_deep(Seq::<Element>::empty())
                                    =~= Seq::<ElementV>::empty());
                            }
                            Ok((m4, elem))
                        },
                    }
                },
            }
        },
    }
}

/// A whole element, leading and trailing whitespace trimmed.
pub struct ElementParser {}

impl ElementParser {
    /// Parse one element; succeeds exactly on the inputs `element_ok`
    /// describes, with the grammar's remainder and value.
    pub fn parse(&self, input: &str) -> (r: ParseResult<Element>)
        ensures
            element_ok(input@) ==> (r matches Ok(p) && p.0@ == element_rest(input@)
                && p.1.deep_view() == element_val(input@)),
            !element_ok(input@) ==> r is Err,
    {
        let chars = crate::parsers::chars_of(input);
        proof {
            assert(chars@.skip(0) =~= input@);
        }
        match parse_element_at(&chars, 0) {
            Ok((npos, v)) => Ok((crate::parsers::string_from(&chars, npos), v)),
            Err(epos) => Err(ParsingError::FailedWith(crate::parsers::string_from(&chars, epos))),
        }
    }
}

/// A whole element.
pub fn element() -> (p: ElementParser) {
    ElementParser {  }
}

/// A whole element that must carry a specific name.
pub struct ElementWithName {
    pub name: String,
}

impl ElementWithName {
    /// Parse one element and accept it only under the expected name.
    pub fn parse(&self, input: &str) -> (r: ParseResult<Element>)
        ensures
            (element_ok(input@) && element_val(input@).name == self.name@) ==> (r matches Ok(p)
                && p.0@ == element_rest(input@) && p.1.deep_view() == element_val(input@)),
            !(element_ok(input@) && element_val(input@).name == self.name@) ==> r is Err,
    {
        let chars = crate::parsers::chars_of(input);
        proof {
            assert(chars@.skip(0) =~= input@);
        }
        match parse_element_at(&chars, 0) {
            Ok((npos, v)) => {
                if str_eq(v.name.as_str(), self.name.as_str()) {
                    Ok((crate::parsers::string_from(&chars, npos), v))
                } else {
                    Err(ParsingError::FailedWith(crate::parsers::string_from(&chars, 0)))
                }
            },
            Err(epos) => Err(
                ParsingError::FailedWith(crate::parsers::string_from(&chars, epos)),
            ),
        }
    }
}

/// A whole element with the given name.
pub fn element_with_name(expected_name: String) -> (p: ElementWithName)
    ensures
        p.name == expected_name,
{
    ElementWithName { name: expected_name }
}

/// A self-closing element, no surrounding whitespace.
pub struct SingleElementParser {}

impl SingleElementParser {
    pub fn parse(&self, input: &str) -> (r: ParseResult<Element>)
        ensures
            single_ok(input@) ==> (r matches Ok(p) && p.0@ == single_rest(input@)
                && p.1.deep_view() == single_val(input@)),
            !single_ok(input@) ==> r is Err,
    {
        let chars = crate::parsers::chars_of(input);
        proof {
            assert(chars@.skip(0) =~= input@);
        }
        match parse_single_at(&chars, 0) {
            Ok((npos, v)) => Ok((crate::parsers::string_from(&chars, npos), v)),
            Err(epos) => Err(ParsingError::FailedWith(crate::parsers::string_from(&chars, epos))),
        }
    }
}

/// A self-closing element.
pub fn single_element() -> (p: SingleElementParser) {
    SingleElementParser {  }
}

/// An XML declaration.
pub struct XmlDefinitionParser {}

impl XmlDefinitionParser {
    pub fn parse(&self, input: &str) -> (r: ParseResult<Element>)
        ensures
            xmldef_ok(input@) ==> (r matches Ok(p) && p.0@ == xmldef_rest(input@)
                && p.1.deep_view() == xmldef_val(input@)),
            !xmldef_ok(input@) ==> r is Err,
    {
        let chars = crate::parsers::chars_of(input);
        proof {
            assert(chars@.skip(0) =~= input@);
        }
        match parse_xmldef_at(&chars, 0) {
            Ok((npos, v)) => Ok((crate::parsers::string_from(&chars, npos), v)),
            Err(epos) => Err(ParsingError::FailedWith(crate::parsers::string_from(&chars, epos))),
        }
    }
}

/// The `<?...?>` declaration at the top of a document.
pub fn xml_definition_element() -> (p: XmlDefinitionParser) {
    XmlDefinitionParser {  }
}

/// An opening tag, whitespace trimmed.
pub struct OpeningElementParser {}

impl OpeningElementParser {
    pub fn parse(&self, input: &str) -> (r: ParseResult<Element>)
        ensures
            opening_ok(input@) ==> (r matches Ok(p) && p.0@ == opening_rest(input@)
                && p.1.deep_view() == opening_val(input@)),
            !opening_ok(input@) ==> r is Err,
    {
        let chars = crate::parsers::chars_of(input);
        proof {
            assert(chars@.skip(0) =~= input@);
        }
        match parse_opening_at(&chars, 0) {
            Ok((npos, v)) => Ok((crate::parsers::string_from(&chars, npos), v)),
            Err(epos) => Err(ParsingError::FailedWith(crate::parsers::string_from(&chars, epos))),
        }
    }
}

/// An opening tag.
pub fn opening_element() -> (p: OpeningElementParser) {
    OpeningElementParser {  }
}

/// A closing tag with an expected name, whitespace trimmed.
pub struct ClosingElementParser {
    pub name: String,
}

impl ClosingElementParser {
    pub fn parse(&self, input: &str) -> (r: ParseResult<String>)
        ensures
            closing_ok(self.name@, input@) ==> (r matches Ok(p) && p.0@ == closing_rest(
                self.name@,
                input@,
            ) && p.1@ == self.name@),
            !closing_ok(self.name@, input@) ==> r is Err,
    {
        let chars = crate::parsers::chars_of(input);
        proof {
            assert(chars@.skip(0) =~= input@);
        }
        match parse_closing_at(&chars, 0, self.name.as_str()) {
            Ok(npos) => Ok((crate::parsers::string_from(&chars, npos), self.name.clone())),
            Err(epos) => Err(ParsingError::FailedWith(crate::parsers::string_from(&chars, epos))),
        }
    }
}

/// The closing tag for `expected_name`.
pub fn closing_element(expected_name: String) -> (p: ClosingElementParser)
    ensures
        p.name == expected_name,
{
    ClosingElementParser { name: expected_name }
}

/// The contents of an element: children, or raw text; never fails.
pub struct DataOrElementsParser {}

impl DataOrElementsParser {
    pub fn parse(&self, input: &str) -> (r: ParseResult<DataOrElements>)
        ensures
            r matches Ok(p) && p.0@ == doe_rest(input@) && p.1.deep_view() == doe_val(input@),
    {
        let chars = crate::parsers::chars_of(input);
        proof {
            assert(chars@.skip(0) =~= input@);
        }
        let (npos, v) = parse_doe_at(&chars, 0);
        Ok((crate::parsers::string_from(&chars, npos), v))
    }
}

/// Child elements or raw text.
pub fn data_or_elements() -> (p: DataOrElementsParser) {
    DataOrElementsParser {  }
}

/// Whitespace-led `name="value"` pairs; never fails.
pub struct AttributesParser {}

impl AttributesParser {
    pub fn parse(&self, input: &str) -> (r: ParseResult<Vec<(String, String)>>)
        ensures
            r matches Ok(p) && p.0@ == attrs_spec(input@).0 && p.1.deep_view() == attrs_spec(
                input@,
            ).1,
    {
        let chars = crate::parsers::chars_of(input);
        proof {
            assert(chars@.skip(0) =~= input@);
        }
        let (npos, v) = parse_attrs_at(&chars, 0);
        Ok((crate::parsers::string_from(&chars, npos), v))
    }
}

/// The attribute list of a tag.
pub fn attributes() -> (p: AttributesParser) {
    AttributesParser {  }
}

} // verus!

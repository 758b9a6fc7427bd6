//! The field/method type-descriptor mini-language.
//!
//! A field descriptor is one of the single-character base-type codes
//! `B C D F I J S Z`; or `L` + a class name + `;`; or one-or-more leading `[`
//! (the array dimension, capped at 255) followed by a non-array descriptor.
//! A method descriptor is `(` + zero-or-more field descriptors + `)` +
//! (`V` or a field descriptor).
//!
//! Parsing is a pure function from text to a typed descriptor plus the
//! remaining text. The grammar is modelled by the spec functions
//! [`spec_parse_field`] and [`spec_parse_method`]; the executable parsers are
//! proved to return exactly what the model says, and the encode/parse
//! round-trip laws are proved at the bottom of the module.

use crate::error::ParseError;
use vstd::prelude::*;
use vstd::string::*;

verus! {

/// Non-recursive part of a `FieldDescriptor`: a base type or a class
/// instance type.
#[derive(Debug, Eq, PartialEq, Clone)]
pub enum BasicFieldType {
    Byte,
    Char,
    Double,
    Float,
    Int,
    Long,
    ClassInstance(String),
    Short,
    Boolean,
}

/// Mathematical model of [`BasicFieldType`]: the class name is a character
/// sequence.
pub enum BasicFieldTypeView {
    Byte,
    Char,
    Double,
    Float,
    Int,
    Long,
    ClassInstance(Seq<char>),
    Short,
    Boolean,
}

impl View for BasicFieldType {
    type V = BasicFieldTypeView;

    open spec fn view(&self) -> BasicFieldTypeView {
        match self {
            BasicFieldType::Byte => BasicFieldTypeView::Byte,
            BasicFieldType::Char => BasicFieldTypeView::Char,
            BasicFieldType::Double => BasicFieldTypeView::Double,
            BasicFieldType::Float => BasicFieldTypeView::Float,
            BasicFieldType::Int => BasicFieldTypeView::Int,
            BasicFieldType::Long => BasicFieldTypeView::Long,
            BasicFieldType::ClassInstance(n) => BasicFieldTypeView::ClassInstance(n@),
            BasicFieldType::Short => BasicFieldTypeView::Short,
            BasicFieldType::Boolean => BasicFieldTypeView::Boolean,
        }
    }
}

/// A field descriptor: a basic type, or an array of a basic type with a
/// dimension between 1 and 255.
#[derive(Debug, Eq, PartialEq, Clone)]
pub enum FieldDescriptor {
    /// BaseType | ObjectType
    Basic(BasicFieldType),
    /// ArrayType: dimension (always between 1 and 255), element type
    Arr(u8, BasicFieldType),
}

/// Mathematical model of [`FieldDescriptor`].
pub enum FieldDescriptorView {
    Basic(BasicFieldTypeView),
    Arr(u8, BasicFieldTypeView),
}

impl View for FieldDescriptor {
    type V = FieldDescriptorView;

    open spec fn view(&self) -> FieldDescriptorView {
        match self {
            FieldDescriptor::Basic(b) => FieldDescriptorView::Basic(b@),
            FieldDescriptor::Arr(dim, b) => FieldDescriptorView::Arr(*dim, b@),
        }
    }
}

/// The return part of a method descriptor.
#[derive(Debug, Eq, PartialEq, Clone)]
pub enum ReturnDescriptor {
    Void,
    NonVoid(FieldDescriptor),
}

/// Mathematical model of [`ReturnDescriptor`].
pub enum ReturnDescriptorView {
    Void,
    NonVoid(FieldDescriptorView),
}

impl View for ReturnDescriptor {
    type V = ReturnDescriptorView;

    open spec fn view(&self) -> ReturnDescriptorView {
        match self {
            ReturnDescriptor::Void => ReturnDescriptorView::Void,
            ReturnDescriptor::NonVoid(d) => ReturnDescriptorView::NonVoid(d@),
        }
    }
}

/// A method descriptor: the ordered parameter types and the return type.
#[derive(Debug, Eq, PartialEq, Clone)]
pub struct MethodDescriptor {
    pub parameters: Vec<FieldDescriptor>,
    pub return_descriptor: ReturnDescriptor,
}

/// Mathematical model of [`MethodDescriptor`].
pub struct MethodDescriptorView {
    pub parameters: Seq<FieldDescriptorView>,
    pub return_descriptor: ReturnDescriptorView,
}

impl View for MethodDescriptor {
    type V = MethodDescriptorView;

    open spec fn view(&self) -> MethodDescriptorView {
        MethodDescriptorView {
            parameters: self.parameters@.map_values(|d: FieldDescriptor| d@),
            return_descriptor: self.return_descriptor@,
        }
    }
}

/// The index of the first `;` at or after `i`, or `s.len()` if there is none.
pub open spec fn first_semi(s: Seq<char>, i: int) -> int
    decreases s.len() - i,
{
    if i < 0 || i >= s.len() {
        s.len() as int
    } else if s[i] == ';' {
        i
    } else {
        first_semi(s, i + 1)
    }
}

/// The index just after the run of `[` characters that starts at `i`.
pub open spec fn bracket_run_end(s: Seq<char>, i: int) -> int
    decreases s.len() - i,
{
    if 0 <= i < s.len() && s[i] == '[' {
        bracket_run_end(s, i + 1)
    } else {
        i
    }
}

/// What a non-array field descriptor starting at position `i` of `s` parses
/// to, together with the position just after it; `None` when the text does
/// not follow the grammar.
pub open spec fn spec_parse_basic(s: Seq<char>, i: int) -> Option<(BasicFieldTypeView, int)> {
    if i < 0 || i >= s.len() {
        None
    } else if s[i] == 'B' {
        Some((BasicFieldTypeView::Byte, i + 1))
    } else if s[i] == 'C' {
        Some((BasicFieldTypeView::Char, i + 1))
    } else if s[i] == 'D' {
        Some((BasicFieldTypeView::Double, i + 1))
    } else if s[i] == 'F' {
        Some((BasicFieldTypeView::Float, i + 1))
    } else if s[i] == 'I' {
        Some((BasicFieldTypeView::Int, i + 1))
    } else if s[i] == 'J' {
        Some((BasicFieldTypeView::Long, i + 1))
    } else if s[i] == 'S' {
        Some((BasicFieldTypeView::Short, i + 1))
    } else if s[i] == 'Z' {
        Some((BasicFieldTypeView::Boolean, i + 1))
    } else if s[i] == 'L' {
        let j = first_semi(s, i + 1);
        if j >= s.len() {
            None
        } else {
            Some((BasicFieldTypeView::ClassInstance(s.subrange(i + 1, j)), j + 1))
        }
    } else {
        None
    }
}

/// What a field descriptor starting at position `i` of `s` parses to,
/// together with the position just after it.
pub open spec fn spec_parse_field(s: Seq<char>, i: int) -> Option<(FieldDescriptorView, int)> {
    if i < 0 || i > s.len() {
        None
    } else {
        let e = bracket_run_end(s, i);
        let dim = e - i;
        if dim == 0 {
            match spec_parse_basic(s, i) {
                Some((b, j)) => Some((FieldDescriptorView::Basic(b), j)),
                None => None,
            }
        } else if dim > 255 {
            None
        } else {
            match spec_parse_basic(s, e) {
                Some((b, j)) => Some((FieldDescriptorView::Arr(dim as u8, b), j)),
                None => None,
            }
        }
    }
}

/// Prepends an already-parsed prefix of parameters to the outcome of parsing
/// the remaining parameter list.
pub open spec fn params_compose(
    pre: Seq<FieldDescriptorView>,
    r: Option<(Seq<FieldDescriptorView>, int)>,
) -> Option<(Seq<FieldDescriptorView>, int)> {
    match r {
        Some((ps, k)) => Some((pre + ps, k)),
        None => None,
    }
}

/// What the parameter list starting at position `i` of `s` (just after the
/// `(`) parses to, together with the position just after the closing `)`.
pub open spec fn spec_parse_params(s: Seq<char>, i: int) -> Option<(Seq<FieldDescriptorView>, int)>
    decreases s.len() - i,
{
    if i < 0 || i >= s.len() {
        None
    } else if s[i] == ')' {
        Some((Seq::empty(), i + 1))
    } else {
        match spec_parse_field(s, i) {
            None => None,
            Some((d, j)) => if j <= i || j > s.len() {
                None
            } else {
                match spec_parse_params(s, j) {
                    None => None,
                    Some((ps, k)) => Some((seq![d] + ps, k)),
                }
            },
        }
    }
}

/// What a method descriptor starting at position `i` of `s` parses to,
/// together with the position just after it. Text after the return
/// descriptor is ignored.
pub open spec fn spec_parse_method(s: Seq<char>, i: int) -> Option<(MethodDescriptorView, int)> {
    if i < 0 || i >= s.len() || s[i] != '(' {
        None
    } else {
        match spec_parse_params(s, i + 1) {
            None => None,
            Some((ps, j)) => if j >= s.len() {
                None
            } else if s[j] == 'V' {
                Some(
                    (
                        MethodDescriptorView {
                            parameters: ps,
                            return_descriptor: ReturnDescriptorView::Void,
                        },
                        j + 1,
                    ),
                )
            } else {
                match spec_parse_field(s, j) {
                    None => None,
                    Some((d, k)) => Some(
                        (
                            MethodDescriptorView {
                                parameters: ps,
                                return_descriptor: ReturnDescriptorView::NonVoid(d),
                            },
                            k,
                        ),
                    ),
                }
            },
        }
    }
}

/// Parses a non-array field descriptor starting at character `i`, returning
/// the basic type and the position just after it.
fn parse_basic_at(string: &str, i: usize) -> (res: Result<(BasicFieldType, usize), ParseError>)
    requires
        i <= string@.len(),
    ensures
        match spec_parse_basic(string@, i as int) {
            Some((b, j)) => res matches Ok(p) && p.0@ == b && p.1 == j,
            None => res matches Err(e) && e == ParseError::InvalidDescriptorSyntax,
        },
{
    let ghost s = string@;
    let n = string.unicode_len();
    if i >= n {
        return Err(ParseError::InvalidDescriptorSyntax);
    }
    let c = string.get_char(i);
    if c == 'B' {
        Ok((BasicFieldType::Byte, i + 1))
    } else if c == 'C' {
        Ok((BasicFieldType::Char, i + 1))
    } else if c == 'D' {
        Ok((BasicFieldType::Double, i + 1))
    } else if c == 'F' {
        Ok((BasicFieldType::Float, i + 1))
    } else if c == 'I' {
        Ok((BasicFieldType::Int, i + 1))
    } else if c == 'J' {
        Ok((BasicFieldType::Long, i + 1))
    } else if c == 'S' {
        Ok((BasicFieldType::Short, i + 1))
    } else if c == 'Z' {
        Ok((BasicFieldType::Boolean, i + 1))
    } else if c == 'L' {
        let mut j = i + 1;
        while j < n && string.get_char(j) != ';'
            invariant
                i + 1 <= j <= n,
                n == s.len(),
                string@ == s,
                first_semi(s, i + 1) == first_semi(s, j as int),
            decreases n - j,
        {
            j = j + 1;
        }
        if j >= n {
            assert(first_semi(s, i + 1) == s.len());
            return Err(ParseError::InvalidDescriptorSyntax);
        }
        assert(first_semi(s, j as int) == j);
        let name = string.substring_char(i + 1, j);
        Ok((BasicFieldType::ClassInstance(String::from_str(name)), j + 1))
    } else {
        Err(ParseError::InvalidDescriptorSyntax)
    }
}

/// Parses a field descriptor starting at character `i`, returning the
/// descriptor and the position just after it.
fn parse_field_at(string: &str, i: usize) -> (res: Result<(FieldDescriptor, usize), ParseError>)
    requires
        i <= string@.len(),
    ensures
        match spec_parse_field(string@, i as int) {
            Some((d, j)) => res matches Ok(p) && p.0@ == d && p.1 == j && i < j <= string@.len(),
            None => res matches Err(e) && e == ParseError::InvalidDescriptorSyntax,
        },
{
    let ghost s = string@;
    proof {
        lemma_parse_field_advances(s, i as int);
    }
    let n = string.unicode_len();
    let mut e = i;
    while e < n && string.get_char(e) == '['
        invariant
            i <= e <= n,
            n == s.len(),
            string@ == s,
            bracket_run_end(s, i as int) == bracket_run_end(s, e as int),
        decreases n - e,
    {
        e = e + 1;
    }
    assert(bracket_run_end(s, i as int) == e);
    let dim = e - i;
    if dim == 0 {
        let (b, j) = parse_basic_at(string, i)?;
        Ok((FieldDescriptor::Basic(b), j))
    } else if dim > 255 {
        Err(ParseError::InvalidDescriptorSyntax)
    } else {
        let (b, j) = parse_basic_at(string, e)?;
        Ok((FieldDescriptor::Arr(dim as u8, b), j))
    }
}

/// Parses a field descriptor from the front of `string`, returning it
/// together with the text that follows it.
pub fn parse_field_descriptor_rest<'a>(string: &'a str) -> (res: Result<
    (FieldDescriptor, &'a str),
    ParseError,
>)
    ensures
        match spec_parse_field(string@, 0) {
            Some((d, j)) => res matches Ok(p) && p.0@ == d && p.1@ == string@.subrange(
                j,
                string@.len() as int,
            ),
            None => res matches Err(e) && e == ParseError::InvalidDescriptorSyntax,
        },
{
    let (d, j) = parse_field_at(string, 0)?;
    let rest = string.substring_char(j, string.unicode_len());
    Ok((d, rest))
}

/// Parses a field descriptor from the front of `string`, ignoring any text
/// that follows it.
pub fn parse_field_descriptor(string: &str) -> (res: Result<FieldDescriptor, ParseError>)
    ensures
        match spec_parse_field(string@, 0) {
            Some((d, j)) => res matches Ok(r) && r@ == d,
            None => res matches Err(e) && e == ParseError::InvalidDescriptorSyntax,
        },
{
    let (d, _) = parse_field_at(string, 0)?;
    Ok(d)
}

/// Parses a method descriptor from the front of `string`, ignoring any text
/// that follows it.
pub fn parse_method_descriptor(string: &str) -> (res: Result<MethodDescriptor, ParseError>)
    ensures
        match spec_parse_method(string@, 0) {
            Some((m, j)) => res matches Ok(r) && r@ == m,
            None => res matches Err(e) && e == ParseError::InvalidDescriptorSyntax,
        },
{
    let ghost s = string@;
    let n = string.unicode_len();
    if n == 0 || string.get_char(0) != '(' {
        return Err(ParseError::InvalidDescriptorSyntax);
    }
    let mut parameters: Vec<FieldDescriptor> = Vec::new();
    let mut pos: usize = 1;
    loop
        invariant
            1 <= pos <= n,
            n == s.len(),
            string@ == s,
            s.len() > 0 && s[0] == '(',
            spec_parse_params(s, 1) == params_compose(
                parameters@.map_values(|d: FieldDescriptor| d@),
                spec_parse_params(s, pos as int),
            ),
        decreases n - pos,
    {
        if pos >= n {
            return Err(ParseError::InvalidDescriptorSyntax);
        }
        if string.get_char(pos) == ')' {
            let rpos = pos + 1;
            proof {
                assert(spec_parse_params(s, pos as int) == Some(
                    (Seq::<FieldDescriptorView>::empty(), rpos as int),
                ));
                assert(parameters@.map_values(|d: FieldDescriptor| d@)
                    + Seq::<FieldDescriptorView>::empty() =~= parameters@.map_values(
                    |d: FieldDescriptor| d@,
                ));
            }
            proof {
                let pre = parameters@.map_values(|d: FieldDescriptor| d@);
                assert(spec_parse_params(s, 1) == Some((pre, rpos as int)));
            }
            if rpos >= n {
                return Err(ParseError::InvalidDescriptorSyntax);
            }
            let return_descriptor = if string.get_char(rpos) == 'V' {
                ReturnDescriptor::Void
            } else {
                let (d, _) = parse_field_at(string, rpos)?;
                ReturnDescriptor::NonVoid(d)
            };
            let md = MethodDescriptor { parameters, return_descriptor };
            proof {
                let (m, j) = spec_parse_method(s, 0).unwrap();
                assert(md@.parameters == m.parameters);
                assert(md@.return_descriptor == m.return_descriptor);
                assert(md@ == m);
            }
            return Ok(md);
        }
        let ghost old_pos = pos as int;
        let ghost old_params = parameters@;
        proof {
            lemma_parse_field_advances(s, pos as int);
        }
        let (d, j) = parse_field_at(string, pos)?;
        parameters.push(d);
        pos = j;
        if pos >= n {
            return Err(ParseError::InvalidDescriptorSyntax);
        }
        proof {
            let pre_old = old_params.map_values(|x: FieldDescriptor| x@);
            let pre_new = parameters@.map_values(|x: FieldDescriptor| x@);
            assert(parameters@ == old_params.push(d));
            assert(pre_new =~= pre_old.push(d@));
            assert(spec_parse_params(s, old_pos) == params_compose(
                seq![d@],
                spec_parse_params(s, pos as int),
            ));
            match spec_parse_params(s, pos as int) {
                Some((ps, k)) => {
                    assert(pre_old + (seq![d@] + ps) =~= pre_new + ps);
                },
                None => {},
            }
        }
    }
}

/// True when a basic type can be re-encoded unambiguously: a class-instance
/// name contains no `;`.
pub open spec fn basic_wf(b: BasicFieldTypeView) -> bool {
    match b {
        BasicFieldTypeView::ClassInstance(n) => forall|k: int| 0 <= k < n.len() ==> n[k] != ';',
        _ => true,
    }
}

/// True when a field descriptor lies in the descriptor domain: the array
/// dimension is at least 1 (and at most 255, by its type) and the element
/// type is well formed.
pub open spec fn field_wf(d: FieldDescriptorView) -> bool {
    match d {
        FieldDescriptorView::Basic(b) => basic_wf(b),
        FieldDescriptorView::Arr(dim, b) => 1 <= dim && basic_wf(b),
    }
}

/// True when every parameter and the return type of a method descriptor are
/// well formed.
pub open spec fn method_wf(m: MethodDescriptorView) -> bool {
    &&& forall|k: int| 0 <= k < m.parameters.len() ==> field_wf(#[trigger] m.parameters[k])
    &&& match m.return_descriptor {
        ReturnDescriptorView::Void => true,
        ReturnDescriptorView::NonVoid(d) => field_wf(d),
    }
}

/// The descriptor text of a basic type.
pub open spec fn encode_basic(b: BasicFieldTypeView) -> Seq<char> {
    match b {
        BasicFieldTypeView::Byte => seq!['B'],
        BasicFieldTypeView::Char => seq!['C'],
        BasicFieldTypeView::Double => seq!['D'],
        BasicFieldTypeView::Float => seq!['F'],
        BasicFieldTypeView::Int => seq!['I'],
        BasicFieldTypeView::Long => seq!['J'],
        BasicFieldTypeView::ClassInstance(n) => seq!['L'] + n + seq![';'],
        BasicFieldTypeView::Short => seq!['S'],
        BasicFieldTypeView::Boolean => seq!['Z'],
    }
}

/// The descriptor text of a field descriptor.
pub open spec fn encode_field(d: FieldDescriptorView) -> Seq<char> {
    match d {
        FieldDescriptorView::Basic(b) => encode_basic(b),
        FieldDescriptorView::Arr(dim, b) => Seq::new(dim as nat, |k: int| '[') + encode_basic(b),
    }
}

/// The descriptor text of a parameter list, without the parentheses.
pub open spec fn encode_params(ps: Seq<FieldDescriptorView>) -> Seq<char>
    decreases ps.len(),
{
    if ps.len() == 0 {
        Seq::empty()
    } else {
        encode_field(ps[0]) + encode_params(ps.drop_first())
    }
}

/// The descriptor text of a return descriptor.
pub open spec fn encode_return(r: ReturnDescriptorView) -> Seq<char> {
    match r {
        ReturnDescriptorView::Void => seq!['V'],
        ReturnDescriptorView::NonVoid(d) => encode_field(d),
    }
}

/// The descriptor text of a method descriptor.
pub open spec fn encode_method(m: MethodDescriptorView) -> Seq<char> {
    seq!['('] + encode_params(m.parameters) + seq![')'] + encode_return(m.return_descriptor)
}

/// The descriptor text of a basic type, as an owned string.
fn encode_basic_type(b: &BasicFieldType) -> (r: String)
    ensures
        r@ == encode_basic(b@),
{
    match b {
        BasicFieldType::Byte => {
            let r = String::from_str("B");
            proof {
                reveal_strlit("B");
                assert(r@ =~= seq!['B']);
            }
            r
        },
        BasicFieldType::Char => {
            let r = String::from_str("C");
            proof {
                reveal_strlit("C");
                assert(r@ =~= seq!['C']);
            }
            r
        },
        BasicFieldType::Double => {
            let r = String::from_str("D");
            proof {
                reveal_strlit("D");
                assert(r@ =~= seq!['D']);
            }
            r
        },
        BasicFieldType::Float => {
            let r = String::from_str("F");
            proof {
                reveal_strlit("F");
                assert(r@ =~= seq!['F']);
            }
            r
        },
        BasicFieldType::Int => {
            let r = String::from_str("I");
            proof {
                reveal_strlit("I");
                assert(r@ =~= seq!['I']);
            }
            r
        },
        BasicFieldType::Long => {
            let r = String::from_str("J");
            proof {
                reveal_strlit("J");
                assert(r@ =~= seq!['J']);
            }
            r
        },
        BasicFieldType::ClassInstance(n) => {
            let mut r = String::from_str("L");
            r.append(n.as_str());
            r.append(";");
            proof {
                reveal_strlit("L");
                reveal_strlit(";");
                assert(r@ =~= seq!['L'] + n@ + seq![';']);
            }
            r
        },
        BasicFieldType::Short => {
            let r = String::from_str("S");
            proof {
                reveal_strlit("S");
                assert(r@ =~= seq!['S']);
            }
            r
        },
        BasicFieldType::Boolean => {
            let r = String::from_str("Z");
            proof {
                reveal_strlit("Z");
                assert(r@ =~= seq!['Z']);
            }
            r
        },
    }
}

/// Re-encodes a field descriptor as descriptor text.
pub fn encode_field_descriptor(d: &FieldDescriptor) -> (r: String)
    ensures
        r@ == encode_field(d@),
{
    match d {
        FieldDescriptor::Basic(b) => encode_basic_type(b),
        FieldDescriptor::Arr(dim, b) => {
            let mut r = String::new();
            let mut k: u8 = 0;
            while k < *dim
                invariant
                    k <= *dim,
                    r@ =~= Seq::new(k as nat, |x: int| '['),
                decreases *dim - k,
            {
                r.append("[");
                k = k + 1;
                proof {
                    reveal_strlit("[");
                    assert(r@ =~= Seq::new(k as nat, |x: int| '['));
                }
            }
            let bs = encode_basic_type(b);
            r.append(bs.as_str());
            proof {
                assert(r@ =~= Seq::new(*dim as nat, |x: int| '[') + encode_basic(b@));
            }
            r
        },
    }
}

/// Appending one descriptor to a parameter list appends its encoding.
proof fn lemma_encode_params_snoc(ps: Seq<FieldDescriptorView>, d: FieldDescriptorView)
    ensures
        encode_params(ps.push(d)) == encode_params(ps) + encode_field(d),
    decreases ps.len(),
{
    if ps.len() == 0 {
        assert(ps.push(d)[0] == d);
        assert(ps.push(d).drop_first() =~= Seq::<FieldDescriptorView>::empty());
        assert(encode_params(ps.push(d)) == encode_field(d) + encode_params(
            Seq::<FieldDescriptorView>::empty(),
        ));
        assert(encode_params(Seq::<FieldDescriptorView>::empty()) == Seq::<char>::empty());
        assert(ps =~= Seq::<FieldDescriptorView>::empty());
        assert(encode_field(d) + Seq::<char>::empty() =~= Seq::<char>::empty() + encode_field(d));
    } else {
        lemma_encode_params_snoc(ps.drop_first(), d);
        assert(ps.push(d)[0] == ps[0]);
        assert(ps.push(d).drop_first() =~= ps.drop_first().push(d));
        assert(encode_params(ps.push(d)) == encode_field(ps[0]) + (encode_params(ps.drop_first())
            + encode_field(d)));
        assert(encode_field(ps[0]) + (encode_params(ps.drop_first()) + encode_field(d)) =~= (
        encode_field(ps[0]) + encode_params(ps.drop_first())) + encode_field(d));
    }
}

/// Re-encodes a method descriptor as descriptor text.
pub fn encode_method_descriptor(m: &MethodDescriptor) -> (r: String)
    ensures
        r@ == encode_method(m@),
{
    let mut r = String::from_str("(");
    proof {
        reveal_strlit("(");
        assert(r@ =~= seq!['(']);
    }
    let mut i: usize = 0;
    while i < m.parameters.len()
        invariant
            i <= m.parameters.len(),
            r@ == seq!['('] + encode_params(m@.parameters.take(i as int)),
        decreases m.parameters.len() - i,
    {
        let fs = encode_field_descriptor(&m.parameters[i]);
        r.append(fs.as_str());
        i = i + 1;
        proof {
            let pv = m@.parameters;
            assert(pv[i - 1] == m.parameters@[i - 1]@);
            lemma_encode_params_snoc(pv.take(i - 1), pv[i - 1]);
            assert(pv.take(i - 1).push(pv[i - 1]) =~= pv.take(i as int));
            assert(r@ =~= seq!['('] + encode_params(pv.take(i as int)));
        }
    }
    proof {
        assert(m@.parameters.take(m.parameters.len() as int) =~= m@.parameters);
    }
    r.append(")");
    proof {
        reveal_strlit(")");
    }
    match &m.return_descriptor {
        ReturnDescriptor::Void => {
            r.append("V");
            proof {
                reveal_strlit("V");
                assert(r@ =~= encode_method(m@));
            }
        },
        ReturnDescriptor::NonVoid(d) => {
            let fs = encode_field_descriptor(d);
            r.append(fs.as_str());
            proof {
                assert(r@ =~= encode_method(m@));
            }
        },
    }
    r
}

/// A field descriptor never parses to an empty or out-of-bounds span.
proof fn lemma_parse_field_advances(s: Seq<char>, i: int)
    ensures
        spec_parse_field(s, i) matches Some((d, j)) ==> i < j <= s.len(),
{
    if 0 <= i <= s.len() {
        lemma_bracket_run_end_bounds(s, i);
        let e = bracket_run_end(s, i);
        lemma_first_semi_bounds(s, i + 1);
        lemma_first_semi_bounds(s, e + 1);
    }
}

/// `first_semi` stays within `[i, s.len()]` and lands on a `;` when it lands
/// inside the text.
proof fn lemma_first_semi_bounds(s: Seq<char>, i: int)
    requires
        0 <= i,
    ensures
        first_semi(s, i) <= s.len(),
        i <= s.len() ==> i <= first_semi(s, i),
        first_semi(s, i) < s.len() ==> s[first_semi(s, i)] == ';',
        forall|k: int| i <= k < first_semi(s, i) ==> s[k] != ';',
    decreases s.len() - i,
{
    if i < s.len() && s[i] != ';' {
        lemma_first_semi_bounds(s, i + 1);
    }
}

/// The bracket run starting at `i` ends within `[i, s.len()]`, every
/// character inside it is `[`, and the character after it (if any) is not.
proof fn lemma_bracket_run_end_bounds(s: Seq<char>, i: int)
    requires
        0 <= i <= s.len(),
    ensures
        i <= bracket_run_end(s, i) <= s.len(),
        forall|k: int| i <= k < bracket_run_end(s, i) ==> s[k] == '[',
        bracket_run_end(s, i) < s.len() ==> s[bracket_run_end(s, i)] != '[',
    decreases s.len() - i,
{
    if i < s.len() && s[i] == '[' {
        lemma_bracket_run_end_bounds(s, i + 1);
    }
}

/// `first_semi` lands exactly on the first `;`.
proof fn lemma_first_semi_finds(s: Seq<char>, i: int, j: int)
    requires
        0 <= i <= j < s.len(),
        s[j] == ';',
        forall|k: int| i <= k < j ==> s[k] != ';',
    ensures
        first_semi(s, i) == j,
    decreases j - i,
{
    if i < j {
        lemma_first_semi_finds(s, i + 1, j);
    }
}

/// `bracket_run_end` lands exactly on the first character that is not `[`.
proof fn lemma_bracket_run_end_finds(s: Seq<char>, i: int, e: int)
    requires
        0 <= i <= e <= s.len(),
        forall|k: int| i <= k < e ==> s[k] == '[',
        e == s.len() || s[e] != '[',
    ensures
        bracket_run_end(s, i) == e,
    decreases e - i,
{
    if i < e {
        lemma_bracket_run_end_finds(s, i + 1, e);
    }
}

/// The first character of an encoded basic type is a base-type code or `L`,
/// never `[`, `)` or `V`; and the encoding is never empty.
proof fn lemma_encode_basic_first(b: BasicFieldTypeView)
    ensures
        encode_basic(b).len() >= 1,
        encode_basic(b)[0] != '[',
        encode_basic(b)[0] != ')',
        encode_basic(b)[0] != 'V',
{
}

/// The first character of an encoded field descriptor is never `)` or `V`,
/// and the encoding is never empty.
proof fn lemma_encode_field_first(d: FieldDescriptorView)
    requires
        field_wf(d),
    ensures
        encode_field(d).len() >= 1,
        encode_field(d)[0] != ')',
        encode_field(d)[0] != 'V',
{
    match d {
        FieldDescriptorView::Basic(b) => lemma_encode_basic_first(b),
        FieldDescriptorView::Arr(dim, b) => lemma_encode_basic_first(b),
    }
}

/// Parsing a basic type out of text that carries its encoding at `i` yields
/// that basic type back, whatever text follows.
proof fn lemma_encode_parse_basic(s: Seq<char>, i: int, b: BasicFieldTypeView)
    requires
        basic_wf(b),
        0 <= i,
        i + encode_basic(b).len() <= s.len(),
        s.subrange(i, i + encode_basic(b).len()) == encode_basic(b),
    ensures
        spec_parse_basic(s, i) == Some((b, i + encode_basic(b).len())),
{
    let enc = encode_basic(b);
    assert(s[i] == s.subrange(i, i + enc.len())[0]);
    match b {
        BasicFieldTypeView::ClassInstance(n) => {
            let j = i + 1 + n.len();
            assert(s[j] == s.subrange(i, i + enc.len())[1 + n.len() as int]);
            assert(s[j] == ';');
            assert forall|k: int| i + 1 <= k < j implies s[k] != ';' by {
                assert(s[k] == s.subrange(i, i + enc.len())[k - i]);
                assert(s.subrange(i, i + enc.len())[k - i] == n[k - i - 1]);
            }
            lemma_first_semi_finds(s, i + 1, j);
            assert forall|k: int| 0 <= k < n.len() implies s.subrange(i + 1, j)[k] == n[k] by {
                assert(s[i + 1 + k] == s.subrange(i, i + enc.len())[1 + k]);
            }
            assert(s.subrange(i + 1, j) =~= n);
        },
        _ => {},
    }
}

/// Parsing a field descriptor out of text that carries its encoding at `i`
/// yields that descriptor back, whatever text follows.
proof fn lemma_encode_parse_field(s: Seq<char>, i: int, d: FieldDescriptorView)
    requires
        field_wf(d),
        0 <= i,
        i + encode_field(d).len() <= s.len(),
        s.subrange(i, i + encode_field(d).len()) == encode_field(d),
    ensures
        spec_parse_field(s, i) == Some((d, i + encode_field(d).len())),
{
    let enc = encode_field(d);
    match d {
        FieldDescriptorView::Basic(b) => {
            lemma_encode_basic_first(b);
            assert(s[i] == s.subrange(i, i + enc.len())[0]);
            assert(s[i] != '[');
            lemma_bracket_run_end_finds(s, i, i);
            lemma_encode_parse_basic(s, i, b);
        },
        FieldDescriptorView::Arr(dim, b) => {
            lemma_encode_basic_first(b);
            let e = i + dim as int;
            assert forall|k: int| i <= k < e implies s[k] == '[' by {
                assert(s[k] == s.subrange(i, i + enc.len())[k - i]);
            }
            assert(s[e] == s.subrange(i, i + enc.len())[dim as int]);
            assert(s[e] == encode_basic(b)[0]);
            lemma_bracket_run_end_finds(s, i, e);
            assert(s.subrange(e, e + encode_basic(b).len()) =~= encode_basic(b)) by {
                assert forall|k: int| 0 <= k < encode_basic(b).len() implies s.subrange(
                    e,
                    e + encode_basic(b).len(),
                )[k] == encode_basic(b)[k] by {
                    assert(s[e + k] == s.subrange(i, i + enc.len())[dim as int + k]);
                }
            }
            lemma_encode_parse_basic(s, e, b);
            assert((e - i) as u8 == dim);
        },
    }
}

/// Parsing a parameter list out of text that carries its encoding at `i`,
/// followed by `)`, yields that list back, whatever text follows.
proof fn lemma_encode_parse_params(s: Seq<char>, i: int, ps: Seq<FieldDescriptorView>)
    requires
        forall|k: int| 0 <= k < ps.len() ==> field_wf(#[trigger] ps[k]),
        0 <= i,
        i + encode_params(ps).len() < s.len(),
        s.subrange(i, i + encode_params(ps).len()) == encode_params(ps),
        s[i + encode_params(ps).len()] == ')',
    ensures
        spec_parse_params(s, i) == Some((ps, i + encode_params(ps).len() + 1)),
    decreases ps.len(),
{
    let enc = encode_params(ps);
    if ps.len() == 0 {
        assert(ps =~= Seq::<FieldDescriptorView>::empty());
    } else {
        let p0 = ps[0];
        let rest = ps.drop_first();
        let e0 = encode_field(p0);
        lemma_encode_field_first(p0);
        assert(enc == e0 + encode_params(rest));
        assert forall|k: int| 0 <= k < e0.len() implies s.subrange(i, i + e0.len())[k]
            == e0[k] by {
            assert(s[i + k] == s.subrange(i, i + enc.len())[k]);
        }
        assert(s.subrange(i, i + e0.len()) =~= e0);
        lemma_encode_parse_field(s, i, p0);
        assert(s[i] == s.subrange(i, i + enc.len())[0]);
        assert(s[i] != ')');
        let j = i + e0.len();
        assert forall|k: int| 0 <= k < encode_params(rest).len() implies s.subrange(
            j,
            j + encode_params(rest).len(),
        )[k] == encode_params(rest)[k] by {
            assert(s[j + k] == s.subrange(i, i + enc.len())[e0.len() + k]);
        }
        assert(s.subrange(j, j + encode_params(rest).len()) =~= encode_params(rest));
        lemma_encode_parse_params(s, j, rest);
        assert(seq![p0] + rest =~= ps);
    }
}

/// Law: re-parsing a re-encoded field descriptor yields an equal value. For
/// any well-formed descriptor, the text `encode_field(d) + rest` parses back
/// to exactly `d`, consuming exactly the encoding.
pub proof fn lemma_field_descriptor_round_trip(d: FieldDescriptorView, rest: Seq<char>)
    requires
        field_wf(d),
    ensures
        spec_parse_field(encode_field(d) + rest, 0) == Some(
            (d, encode_field(d).len() as int),
        ),
{
    let s = encode_field(d) + rest;
    assert(s.subrange(0, encode_field(d).len() as int) =~= encode_field(d));
    lemma_encode_parse_field(s, 0, d);
}

/// Law: re-parsing a re-encoded method descriptor yields an equal value. For
/// any well-formed method descriptor, the text `encode_method(m) + rest`
/// parses back to exactly `m`, consuming exactly the encoding.
pub proof fn lemma_method_descriptor_round_trip(m: MethodDescriptorView, rest: Seq<char>)
    requires
        method_wf(m),
    ensures
        spec_parse_method(encode_method(m) + rest, 0) == Some(
            (m, encode_method(m).len() as int),
        ),
{
    let s = encode_method(m) + rest;
    let em = encode_method(m);
    let ep = encode_params(m.parameters);
    let epl = ep.len() as int;
    assert(s[0] == '(');
    assert forall|k: int| 0 <= k < epl implies s.subrange(1, 1 + epl)[k] == ep[k] by {
        assert(s[1 + k] == em[1 + k]);
    }
    assert(s.subrange(1, 1 + epl) =~= ep);
    assert(s[1 + epl] == em[1 + epl]);
    assert(s[1 + epl] == ')');
    lemma_encode_parse_params(s, 1, m.parameters);
    let j = 2 + epl;
    assert(spec_parse_params(s, 1) == Some((m.parameters, j)));
    match m.return_descriptor {
        ReturnDescriptorView::Void => {
            assert(s[j] == em[j]);
            assert(s[j] == 'V');
            let (mm, k) = spec_parse_method(s, 0).unwrap();
            assert(mm.parameters == m.parameters);
            assert(mm.return_descriptor == m.return_descriptor);
            assert(mm == m);
        },
        ReturnDescriptorView::NonVoid(d) => {
            lemma_encode_field_first(d);
            let ef = encode_field(d);
            let efl = ef.len() as int;
            assert forall|k: int| 0 <= k < efl implies s.subrange(j, j + efl)[k] == ef[k] by {
                assert(s[j + k] == em[j + k]);
            }
            assert(s.subrange(j, j + efl) =~= ef);
            assert(s[j] == ef[0]);
            assert(s[j] != 'V');
            lemma_encode_parse_field(s, j, d);
            let (mm, k) = spec_parse_method(s, 0).unwrap();
            assert(mm.parameters == m.parameters);
            assert(mm.return_descriptor == m.return_descriptor);
            assert(mm == m);
        },
    }
}

/// Every parsed basic type is well formed: a parsed class name never holds a
/// `;`.
proof fn lemma_parse_basic_wf(s: Seq<char>, i: int)
    ensures
        spec_parse_basic(s, i) matches Some((b, j)) ==> basic_wf(b),
{
    if 0 <= i < s.len() && s[i] == 'L' {
        lemma_first_semi_bounds(s, i + 1);
    }
}

/// Law: every parsed field descriptor lies in the descriptor domain, so the
/// round-trip law applies to it.
pub proof fn lemma_parse_field_wf(s: Seq<char>, i: int)
    ensures
        spec_parse_field(s, i) matches Some((d, j)) ==> field_wf(d),
{
    lemma_parse_basic_wf(s, i);
    if 0 <= i <= s.len() {
        lemma_bracket_run_end_bounds(s, i);
        lemma_parse_basic_wf(s, bracket_run_end(s, i));
    }
}

/// Every parsed parameter list holds only well-formed descriptors.
proof fn lemma_parse_params_wf(s: Seq<char>, i: int)
    ensures
        spec_parse_params(s, i) matches Some((ps, j)) ==> forall|k: int|
            0 <= k < ps.len() ==> field_wf(#[trigger] ps[k]),
    decreases s.len() - i,
{
    if 0 <= i < s.len() && s[i] != ')' {
        lemma_parse_field_wf(s, i);
        match spec_parse_field(s, i) {
            Some((d, j)) => {
                if i < j <= s.len() {
                    lemma_parse_params_wf(s, j);
                }
            },
            None => {},
        }
    }
}

/// Law: every parsed method descriptor lies in the descriptor domain, so the
/// round-trip law applies to it.
pub proof fn lemma_parse_method_wf(s: Seq<char>, i: int)
    ensures
        spec_parse_method(s, i) matches Some((m, j)) ==> method_wf(m),
{
    if 0 <= i < s.len() && s[i] == '(' {
        lemma_parse_params_wf(s, i + 1);
        match spec_parse_params(s, i + 1) {
            Some((ps, j)) => {
                lemma_parse_field_wf(s, j);
            },
            None => {},
        }
    }
}

} // verus!

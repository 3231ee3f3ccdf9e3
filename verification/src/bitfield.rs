use vstd::prelude::*;

use vstd::arithmetic::power2::{lemma_pow2_strictly_increases, lemma_pow2_unfold, lemma2_to64, pow2};

verus! {

/// Types with a known width in bits.
pub trait Bits {
    const BITS: usize;
}

impl Bits for u8 {
    const BITS: usize = 8;
}

impl Bits for u16 {
    const BITS: usize = 16;
}

impl Bits for u32 {
    const BITS: usize = 32;
}

impl Bits for u64 {
    const BITS: usize = 64;
}

impl Bits for u128 {
    const BITS: usize = 128;
}

impl Bits for bool {
    const BITS: usize = 1;
}

/// The types a bit field can be read as.
#[derive(Clone, Copy, Debug, PartialEq, Eq, Structural)]
pub enum BitsType {
    Bool,
    U8,
    U16,
    U32,
    U64,
    U128,
}

/// Width in bits of a field type.
pub open spec fn bits_spec(t: BitsType) -> u32 {
    match t {
        BitsType::Bool => 1,
        BitsType::U8 => 8,
        BitsType::U16 => 16,
        BitsType::U32 => 32,
        BitsType::U64 => 64,
        BitsType::U128 => 128,
    }
}

/// The type exactly `n` bits wide, if there is one.
pub open spec fn type_of_length(n: u32) -> Option<BitsType> {
    if n == 1 {
        Some(BitsType::Bool)
    } else if n == 8 {
        Some(BitsType::U8)
    } else if n == 16 {
        Some(BitsType::U16)
    } else if n == 32 {
        Some(BitsType::U32)
    } else if n == 64 {
        Some(BitsType::U64)
    } else if n == 128 {
        Some(BitsType::U128)
    } else {
        None
    }
}

/// The Rust name of a field type.
pub open spec fn name_of_type(t: BitsType) -> Seq<char> {
    match t {
        BitsType::Bool => seq!['b', 'o', 'o', 'l'],
        BitsType::U8 => seq!['u', '8'],
        BitsType::U16 => seq!['u', '1', '6'],
        BitsType::U32 => seq!['u', '3', '2'],
        BitsType::U64 => seq!['u', '6', '4'],
        BitsType::U128 => seq!['u', '1', '2', '8'],
    }
}

/// The field type called `name`, if any.
pub open spec fn type_named(name: Seq<char>) -> Option<BitsType> {
    if name == name_of_type(BitsType::U8) {
        Some(BitsType::U8)
    } else if name == name_of_type(BitsType::U16) {
        Some(BitsType::U16)
    } else if name == name_of_type(BitsType::U32) {
        Some(BitsType::U32)
    } else if name == name_of_type(BitsType::U64) {
        Some(BitsType::U64)
    } else if name == name_of_type(BitsType::U128) {
        Some(BitsType::U128)
    } else if name == name_of_type(BitsType::Bool) {
        Some(BitsType::Bool)
    } else {
        None
    }
}

/// Whether two character strings are equal.
pub fn chars_eq(a: &[char], b: &[char]) -> (r: bool)
    ensures
        r == (a@ == b@),
{
    if a.len() != b.len() {
        return false;
    }
    let mut i: usize = 0;
    while i < a.len()
        invariant
            a@.len() == b@.len(),
            i <= a@.len(),
            forall|k: int| 0 <= k < i ==> a@[k] == b@[k],
        decreases a.len() - i,
    {
        if a[i] != b[i] {
            return false;
        }
        i = i + 1;
    }
    assert(a@ =~= b@);
    true
}

impl BitsType {
    /// Width in bits.
    pub fn bits(self) -> (r: u32)
        ensures
            r == bits_spec(self),
    {
        match self {
            BitsType::Bool => 1,
            BitsType::U8 => 8,
            BitsType::U16 => 16,
            BitsType::U32 => 32,
            BitsType::U64 => 64,
            BitsType::U128 => 128,
        }
    }

    /// The type exactly `bit_length` bits wide: `bool` for 1, else the
    /// unsigned integer of that width; `None` for any other length.
    pub fn from_bit_length(bit_length: u32) -> (r: Option<BitsType>)
        ensures
            r == type_of_length(bit_length),
    {
        match bit_length {
            1 => Some(BitsType::Bool),
            8 => Some(BitsType::U8),
            16 => Some(BitsType::U16),
            32 => Some(BitsType::U32),
            64 => Some(BitsType::U64),
            128 => Some(BitsType::U128),
            _ => None,
        }
    }

    /// The type whose Rust name is `name` (`u8` to `u128`, `bool`).
    pub fn from_name(name: &[char]) -> (r: Option<BitsType>)
        ensures
            r == type_named(name@),
    {
        let u8_name: &[char] = &['u', '8'];
        let u16_name: &[char] = &['u', '1', '6'];
        let u32_name: &[char] = &['u', '3', '2'];
        let u64_name: &[char] = &['u', '6', '4'];
        let u128_name: &[char] = &['u', '1', '2', '8'];
        let bool_name: &[char] = &['b', 'o', 'o', 'l'];
        assert(u8_name@ == name_of_type(BitsType::U8));
        assert(u16_name@ == name_of_type(BitsType::U16));
        assert(u32_name@ == name_of_type(BitsType::U32));
        assert(u64_name@ == name_of_type(BitsType::U64));
        assert(u128_name@ == name_of_type(BitsType::U128));
        assert(bool_name@ == name_of_type(BitsType::Bool));
        if chars_eq(name, u8_name) {
            Some(BitsType::U8)
        } else if chars_eq(name, u16_name) {
            Some(BitsType::U16)
        } else if chars_eq(name, u32_name) {
            Some(BitsType::U32)
        } else if chars_eq(name, u64_name) {
            Some(BitsType::U64)
        } else if chars_eq(name, u128_name) {
            Some(BitsType::U128)
        } else if chars_eq(name, bool_name) {
            Some(BitsType::Bool)
        } else {
            None
        }
    }

    /// The Rust name of the type (`bool`, `u8` to `u128`), as it is
    /// written in patterns and in messages.
    pub fn name(self) -> (r: Vec<char>)
        ensures
            r@ == name_of_type(self),
    {
        let mut r: Vec<char> = Vec::new();
        match self {
            BitsType::Bool => {
                r.push('b');
                r.push('o');
                r.push('o');
                r.push('l');
            },
            BitsType::U8 => {
                r.push('u');
                r.push('8');
            },
            BitsType::U16 => {
                r.push('u');
                r.push('1');
                r.push('6');
            },
            BitsType::U32 => {
                r.push('u');
                r.push('3');
                r.push('2');
            },
            BitsType::U64 => {
                r.push('u');
                r.push('6');
                r.push('4');
            },
            BitsType::U128 => {
                r.push('u');
                r.push('1');
                r.push('2');
                r.push('8');
            },
        }
        assert(r@ =~= name_of_type(self));
        r
    }
}


/// A token of the macro input: an identifier, or a punctuation character.
#[derive(Clone, Debug, PartialEq, Eq)]
pub enum Token {
    Ident(Vec<char>),
    Punct(char),
}

/// One named field of a bit pattern: its name, its width in bits (at least
/// 1), and the type it is read as when that differs from the whole value's.
pub struct Field {
    pub name: Vec<char>,
    pub width: u32,
    pub retype: Option<BitsType>,
}

/// A field as a value: name, width, type override.
pub type FieldModel = (Seq<char>, u32, Option<BitsType>);

/// The fields of a bit pattern, most significant first.
pub struct Fields(pub Vec<Field>);

/// The value of a field.
pub open spec fn field_model(f: Field) -> FieldModel {
    (f.name@, f.width, f.retype)
}

/// The fields as values, in order.
pub open spec fn fields_model(v: Seq<Field>) -> Seq<FieldModel> {
    v.map_values(|f: Field| field_model(f))
}

/// Whether some field is called `name`.
pub open spec fn has_name(m: Seq<FieldModel>, name: Seq<char>) -> bool {
    exists|i: int| 0 <= i < m.len() && #[trigger] m[i].0 == name
}

/// The fields after the next pattern character `c`: the same character as
/// the last field widens it by one bit (saturating); a new character starts
/// a one-bit field. A character already used by an earlier field is an
/// error (`None`), except `_`, which may start any number of padding fields.
pub open spec fn extend_spec(m: Seq<FieldModel>, c: char) -> Option<Seq<FieldModel>> {
    if m.len() > 0 && m.last().0 == seq![c] {
        let (name, width, retype) = m.last();
        let w = if width == u32::MAX { width } else { (width + 1) as u32 };
        Some(m.update(m.len() - 1, (name, w, retype)))
    } else if c != '_' && has_name(m, seq![c]) {
        None
    } else {
        Some(m.push((seq![c], 1u32, None)))
    }
}

/// The fields `m` extended by the pattern characters `s`, left to right;
/// `None` when a character is refused.
pub open spec fn extend_all(m: Seq<FieldModel>, s: Seq<char>) -> Option<Seq<FieldModel>>
    decreases s.len(),
{
    if s.len() == 0 {
        Some(m)
    } else {
        match extend_all(m, s.drop_last()) {
            Some(m2) => extend_spec(m2, s.last()),
            None => None,
        }
    }
}

/// The fields of a pattern written as tokens, read token by token: each
/// identifier's characters extend the fields; the first refused character
/// gives `RepeatedField`, and a token that is not an identifier gives
/// `UnexpectedToken`, whichever comes first.
pub open spec fn pattern_result(t: Seq<Token>) -> Result<Seq<FieldModel>, BitfieldError>
    decreases t.len(),
{
    if t.len() == 0 {
        Ok(Seq::empty())
    } else {
        match pattern_result(t.drop_last()) {
            Err(e) => Err(e),
            Ok(m) => match t.last() {
                Token::Ident(n) => match extend_all(m, n@) {
                    Some(m2) => Ok(m2),
                    None => Err(BitfieldError::RepeatedField),
                },
                Token::Punct(_) => Err(BitfieldError::UnexpectedToken),
            },
        }
    }
}

/// Total width of the fields.
pub open spec fn bit_length_spec(m: Seq<FieldModel>) -> nat
    decreases m.len(),
{
    if m.len() == 0 {
        0
    } else {
        bit_length_spec(m.drop_last()) + m.last().1 as nat
    }
}

impl Fields {
    /// The fields as values.
    pub open spec fn model(&self) -> Seq<FieldModel> {
        fields_model(self.0@)
    }

    /// No fields.
    pub fn new() -> (r: Self)
        ensures
            r.model() == Seq::<FieldModel>::empty(),
    {
        let r = Fields(Vec::new());
        assert(r.model() =~= Seq::<FieldModel>::empty());
        r
    }

    /// Total width of the fields. The total must fit in a `u32`.
    pub fn bit_length(&self) -> (r: u32)
        requires
            bit_length_spec(self.model()) <= u32::MAX,
        ensures
            r == bit_length_spec(self.model()),
    {
        let mut acc: u32 = 0;
        let mut i: usize = 0;
        while i < self.0.len()
            invariant
                i <= self.0@.len(),
                bit_length_spec(self.model()) <= u32::MAX,
                acc == bit_length_spec(self.model().take(i as int)),
            decreases self.0.len() - i,
        {
            proof {
                assert(self.model().take(i + 1).drop_last() =~= self.model().take(i as int));
                lemma_bit_length_prefix(self.model(), i + 1);
            }
            acc = acc + self.0[i].width;
            i = i + 1;
        }
        assert(self.model().take(i as int) =~= self.model());
        acc
    }

    /// Whether a field is called `name`.
    pub fn has_field(&self, name: &[char]) -> (r: bool)
        ensures
            r == has_name(self.model(), name@),
    {
        let mut i: usize = 0;
        while i < self.0.len()
            invariant
                i <= self.0@.len(),
                forall|k: int| 0 <= k < i ==> self.model()[k].0 != name@,
            decreases self.0.len() - i,
        {
            if chars_eq(self.0[i].name.as_slice(), name) {
                assert(self.model()[i as int].0 == name@);
                return true;
            }
            i = i + 1;
        }
        false
    }

    /// Whether a field is called by the single character `c`.
    pub fn has_char(&self, c: char) -> (r: bool)
        ensures
            r == has_name(self.model(), seq![c]),
    {
        let one: [char; 1] = [c];
        assert(one@ =~= seq![c]);
        self.has_field(&one)
    }

    /// Extends the pattern by character `c`, as [`extend_spec`] says; a
    /// character reused by an earlier field is refused and changes nothing.
    pub fn extend_one_char(&mut self, c: char) -> (r: Result<(), ()>)
        ensures
            match extend_spec(old(self).model(), c) {
                Some(m) => r is Ok && final(self).model() == m,
                None => r is Err && final(self).model() == old(self).model(),
            },
    {
        let n = self.0.len();
        if n > 0 && self.0[n - 1].name.len() == 1 && self.0[n - 1].name[0] == c {
            proof {
                assert(self.model().last().0 =~= seq![c]);
            }
            let w = self.0[n - 1].width;
            let name = self.0[n - 1].name.clone();
            let retype = self.0[n - 1].retype;
            let widened = Field { name, width: w.saturating_add(1), retype };
            let ghost before = self.model();
            self.0.set(n - 1, widened);
            proof {
                assert(self.model() =~= before.update(n - 1, (before.last().0, if w == u32::MAX {
                    w
                } else {
                    (w + 1) as u32
                }, before.last().2)));
            }
            Ok(())
        } else {
            proof {
                if n > 0 {
                    assert(self.model().last().0 != seq![c]) by {
                        if self.model().last().0 == seq![c] {
                            assert(self.model().last().0.len() == 1);
                            assert(self.model().last().0[0] == c);
                        }
                    }
                }
            }
            if c != '_' && self.has_char(c) {
                return Err(());
            }
            let mut name: Vec<char> = Vec::new();
            name.push(c);
            let ghost before = self.model();
            self.0.push(Field { name, width: 1, retype: None });
            proof {
                assert(self.model() =~= before.push((seq![c], 1u32, None)));
            }
            Ok(())
        }
    }

    /// The fields of a pattern written as identifier tokens, their
    /// characters read left to right as [`pattern_result`] says.
    pub fn from_pattern(tokens: &[Token]) -> (r: Result<Fields, BitfieldError>)
        ensures
            match pattern_result(tokens@) {
                Ok(m) => r matches Ok(f) && f.model() == m,
                Err(e) => r matches Err(e2) && e2 == e,
            },
    {
        let mut fields = Fields::new();
        let mut i: usize = 0;
        while i < tokens.len()
            invariant
                i <= tokens@.len(),
                pattern_result(tokens@.take(i as int)) == Ok::<Seq<FieldModel>, BitfieldError>(
                    fields.model(),
                ),
            decreases tokens.len() - i,
        {
            proof {
                assert(tokens@.take(i + 1).drop_last() =~= tokens@.take(i as int));
            }
            let ghost m0 = fields.model();
            match &tokens[i] {
                Token::Ident(name) => {
                    let mut j: usize = 0;
                    while j < name.len()
                        invariant
                            j <= name@.len(),
                            i < tokens@.len(),
                            tokens@[i as int] == Token::Ident(*name),
                            pattern_result(tokens@.take(i as int)) == Ok::<
                                Seq<FieldModel>,
                                BitfieldError,
                            >(m0),
                            tokens@.take(i + 1).drop_last() =~= tokens@.take(i as int),
                            extend_all(m0, name@.take(j as int)) == Some(fields.model()),
                        decreases name.len() - j,
                    {
                        let c = name[j];
                        proof {
                            assert(name@.take(j + 1).drop_last() =~= name@.take(j as int));
                        }
                        match fields.extend_one_char(c) {
                            Ok(()) => {},
                            Err(()) => {
                                proof {
                                    lemma_extend_all_stuck(m0, name@.take(j + 1), name@);
                                    lemma_pattern_error_extends(tokens@, i + 1);
                                }
                                return Err(BitfieldError::RepeatedField);
                            },
                        }
                        j = j + 1;
                    }
                    proof {
                        assert(name@.take(j as int) =~= name@);
                    }
                },
                Token::Punct(_) => {
                    proof {
                        lemma_pattern_error_extends(tokens@, i + 1);
                    }
                    return Err(BitfieldError::UnexpectedToken);
                },
            }
            i = i + 1;
        }
        proof {
            assert(tokens@.take(i as int) =~= tokens@);
        }
        Ok(fields)
    }
}

proof fn lemma_bit_length_prefix(m: Seq<FieldModel>, n: int)
    requires
        0 <= n <= m.len(),
    ensures
        bit_length_spec(m.take(n)) <= bit_length_spec(m),
    decreases m.len(),
{
    if n < m.len() {
        assert(m.drop_last().take(n) =~= m.take(n));
        lemma_bit_length_prefix(m.drop_last(), n);
    } else {
        assert(m.take(n) =~= m);
    }
}

/// Characters that go wrong at some prefix stay wrong however they go on.
proof fn lemma_extend_all_stuck(m: Seq<FieldModel>, p: Seq<char>, s: Seq<char>)
    requires
        p.len() <= s.len(),
        p =~= s.take(p.len() as int),
        extend_all(m, p) is None,
    ensures
        extend_all(m, s) is None,
    decreases s.len(),
{
    if s.len() > p.len() {
        assert(s.drop_last().take(p.len() as int) =~= p);
        lemma_extend_all_stuck(m, p, s.drop_last());
    } else {
        assert(p =~= s);
    }
}

/// An error in the first `n` tokens of a pattern is the pattern's error.
proof fn lemma_pattern_error_extends(t: Seq<Token>, n: int)
    requires
        0 < n <= t.len(),
        pattern_result(t.take(n)) is Err,
    ensures
        pattern_result(t) == pattern_result(t.take(n)),
    decreases t.len(),
{
    if n < t.len() {
        assert(t.drop_last().take(n) =~= t.take(n));
        lemma_pattern_error_extends(t.drop_last(), n);
    } else {
        assert(t.take(n) =~= t);
    }
}

/// A rename/retype entry as a value: the field it targets, the type it
/// gives the field, the name it gives the field.
pub type RenameModel = (Seq<char>, Option<BitsType>, Option<Seq<char>>);

/// One rename/retype entry: `new = field` renames, `field: type` retypes,
/// `new: type = field` does both.
pub struct RenameRetypeField {
    /// The field to rename/retype.
    pub target: Vec<char>,
    pub retype: Option<BitsType>,
    pub rename: Option<Vec<char>>,
}

/// The rename/retype entries of a pattern, in order.
pub struct RenameRetypeGroup(pub Vec<RenameRetypeField>);

/// The entry as a value.
pub open spec fn rename_model(r: RenameRetypeField) -> RenameModel {
    (
        r.target@,
        r.retype,
        match r.rename {
            Some(n) => Some(n@),
            None => None,
        },
    )
}

/// The identifier at position `i`, if an identifier stands there.
pub open spec fn ident_at(t: Seq<Token>, i: int) -> Option<Seq<char>> {
    match t[i] {
        Token::Ident(n) => Some(n@),
        Token::Punct(_) => None,
    }
}

/// Whether punctuation `c` stands at position `i`.
pub open spec fn punct_at(t: Seq<Token>, i: int, c: char) -> bool {
    t[i] == Token::Punct(c)
}

/// An entry read from its tokens: `new = field`, `field: type`, or
/// `new: type = field`, nothing more. A type name that is not a field type
/// gives `InvalidType`; any other shape gives `BadRename`.
pub open spec fn parse_rename_spec(t: Seq<Token>) -> Result<RenameModel, BitfieldError> {
    if t.len() == 3 && ident_at(t, 0) is Some && punct_at(t, 1, '=') && ident_at(t, 2) is Some {
        Ok((ident_at(t, 2).unwrap(), None, Some(ident_at(t, 0).unwrap())))
    } else if t.len() == 3 && ident_at(t, 0) is Some && punct_at(t, 1, ':') && ident_at(t, 2) is Some {
        match type_named(ident_at(t, 2).unwrap()) {
            Some(ty) => Ok((ident_at(t, 0).unwrap(), Some(ty), None)),
            None => Err(BitfieldError::InvalidType),
        }
    } else if t.len() >= 5 && ident_at(t, 0) is Some && punct_at(t, 1, ':') && ident_at(t, 2) is Some
        && punct_at(t, 3, '=') && ident_at(t, 4) is Some {
        if t.len() > 5 {
            Err(BitfieldError::BadRename)
        } else {
            match type_named(ident_at(t, 2).unwrap()) {
                Some(ty) => Ok((ident_at(t, 4).unwrap(), Some(ty), Some(ident_at(t, 0).unwrap()))),
                None => Err(BitfieldError::InvalidType),
            }
        }
    } else {
        Err(BitfieldError::BadRename)
    }
}

/// Position of the first `;` in `t`, or its length when there is none.
pub open spec fn semicolon_index(t: Seq<Token>) -> nat
    decreases t.len(),
{
    if t.len() == 0 {
        0
    } else if t[0] == Token::Punct(';') {
        0
    } else {
        1 + semicolon_index(t.drop_first())
    }
}

/// The first `;` lies inside the tokens, and none stands before it.
pub proof fn lemma_semicolon_index(t: Seq<Token>)
    ensures
        semicolon_index(t) <= t.len(),
        semicolon_index(t) < t.len() ==> t[semicolon_index(t) as int] == Token::Punct(';'),
        forall|k: int| 0 <= k < semicolon_index(t) ==> t[k] != Token::Punct(';'),
    decreases t.len(),
{
    if t.len() > 0 && t[0] != Token::Punct(';') {
        lemma_semicolon_index(t.drop_first());
        assert forall|k: int| 0 <= k < semicolon_index(t) implies t[k] != Token::Punct(';') by {
            if k > 0 {
                assert(t[k] == t.drop_first()[k - 1]);
            }
        }
    }
}

/// Whether an entry of `acc` already targets `name`.
pub open spec fn targets(acc: Seq<RenameModel>, name: Seq<char>) -> bool {
    exists|i: int| 0 <= i < acc.len() && #[trigger] acc[i].0 == name
}

/// The entries of a rename block `t`, separated by `;` (a trailing `;` is
/// allowed), appended to `acc`: each must parse, target a field of
/// `fields`, and target a field no earlier entry targets.
pub open spec fn group_spec(t: Seq<Token>, fields: Seq<FieldModel>, acc: Seq<RenameModel>) -> Result<
    Seq<RenameModel>,
    BitfieldError,
>
    decreases t.len(),
{
    if t.len() == 0 {
        Ok(acc)
    } else {
        let k = semicolon_index(t);
        proof {
            lemma_semicolon_index(t);
        }
        let rest = if k < t.len() {
            t.skip(k + 1 as int)
        } else {
            Seq::empty()
        };
        match parse_rename_spec(t.take(k as int)) {
            Err(e) => Err(e),
            Ok(r) => if !has_name(fields, r.0) {
                Err(BitfieldError::UnknownTarget)
            } else if targets(acc, r.0) {
                Err(BitfieldError::DuplicateTarget)
            } else {
                group_spec(rest, fields, acc.push(r))
            },
        }
    }
}

impl RenameRetypeField {
    /// The entry as a value.
    pub open spec fn model(&self) -> RenameModel {
        rename_model(*self)
    }

    /// Reads one entry from its tokens, as [`parse_rename_spec`] says.
    pub fn from_tokens(toks: &[Token]) -> (r: Result<RenameRetypeField, BitfieldError>)
        ensures
            match parse_rename_spec(toks@) {
                Ok(m) => r matches Ok(f) && f.model() == m,
                Err(e) => r matches Err(e2) && e2 == e,
            },
    {
        let n = toks.len();
        if n == 3 {
            match (&toks[0], &toks[1], &toks[2]) {
                (Token::Ident(to), Token::Punct('='), Token::Ident(from)) => {
                    return Ok(RenameRetypeField { target: copy_chars(from), rename: Some(copy_chars(to)), retype: None });
                },
                (Token::Ident(field), Token::Punct(':'), Token::Ident(retype)) => {
                    return match BitsType::from_name(retype.as_slice()) {
                        Some(ty) => Ok(RenameRetypeField { target: copy_chars(field), rename: None, retype: Some(ty) }),
                        None => Err(BitfieldError::InvalidType),
                    };
                },
                _ => {
                    return Err(BitfieldError::BadRename);
                },
            }
        }
        if n >= 5 {
            match (&toks[0], &toks[1], &toks[2], &toks[3], &toks[4]) {
                (
                    Token::Ident(field),
                    Token::Punct(':'),
                    Token::Ident(retype),
                    Token::Punct('='),
                    Token::Ident(from),
                ) => {
                    if n > 5 {
                        return Err(BitfieldError::BadRename);
                    }
                    return match BitsType::from_name(retype.as_slice()) {
                        Some(ty) => Ok(RenameRetypeField {
                            target: copy_chars(from),
                            rename: Some(copy_chars(field)),
                            retype: Some(ty),
                        }),
                        None => Err(BitfieldError::InvalidType),
                    };
                },
                _ => {
                    return Err(BitfieldError::BadRename);
                },
            }
        }
        Err(BitfieldError::BadRename)
    }
}

/// An entry written back as it reads in a pattern: `new: type = field`,
/// `field: type`, `new = field`, or the bare field.
pub open spec fn rename_text(m: RenameModel) -> Seq<char> {
    let target = m.0;
    match (m.2, m.1) {
        (Some(n), Some(t)) => n + seq![':', ' '] + name_of_type(t) + seq![' ', '=', ' '] + target,
        (None, Some(t)) => target + seq![':', ' '] + name_of_type(t),
        (Some(n), None) => n + seq![' ', '=', ' '] + target,
        (None, None) => target,
    }
}

impl RenameRetypeField {
    /// The entry written back as it reads in a pattern (see [`rename_text`]).
    pub fn text(&self) -> (r: Vec<char>)
        ensures
            r@ == rename_text(self.model()),
    {
        let mut out: Vec<char> = Vec::new();
        match (&self.rename, &self.retype) {
            (Some(rename), Some(retype)) => {
                let mut n = copy_chars(rename);
                out.append(&mut n);
                out.push(':');
                out.push(' ');
                let mut t = retype.name();
                out.append(&mut t);
                out.push(' ');
                out.push('=');
                out.push(' ');
                let mut f = copy_chars(&self.target);
                out.append(&mut f);
            },
            (None, Some(retype)) => {
                let mut f = copy_chars(&self.target);
                out.append(&mut f);
                out.push(':');
                out.push(' ');
                let mut t = retype.name();
                out.append(&mut t);
            },
            (Some(rename), None) => {
                let mut n = copy_chars(rename);
                out.append(&mut n);
                out.push(' ');
                out.push('=');
                out.push(' ');
                let mut f = copy_chars(&self.target);
                out.append(&mut f);
            },
            (None, None) => {
                let mut f = copy_chars(&self.target);
                out.append(&mut f);
            },
        }
        assert(out@ =~= rename_text(self.model()));
        out
    }
}

/// Whether `t` is the `;` that separates rename entries.
fn is_semicolon(t: &Token) -> (r: bool)
    ensures
        r == (*t == Token::Punct(';')),
{
    match t {
        Token::Punct(c) => *c == ';',
        Token::Ident(_) => false,
    }
}

/// A copy of a character string.
pub fn copy_chars(s: &Vec<char>) -> (r: Vec<char>)
    ensures
        r@ == s@,
{
    vstd::slice::slice_to_vec(s.as_slice())
}

impl RenameRetypeGroup {
    /// The entries as values, in order.
    pub open spec fn model(&self) -> Seq<RenameModel> {
        self.0@.map_values(|r: RenameRetypeField| rename_model(r))
    }

    /// Whether an entry targets `target`.
    pub fn has_target(&self, target: &[char]) -> (r: bool)
        ensures
            r == targets(self.model(), target@),
    {
        let mut i: usize = 0;
        while i < self.0.len()
            invariant
                i <= self.0@.len(),
                forall|k: int| 0 <= k < i ==> self.model()[k].0 != target@,
            decreases self.0.len() - i,
        {
            if chars_eq(self.0[i].target.as_slice(), target) {
                assert(self.model()[i as int].0 == target@);
                return true;
            }
            i = i + 1;
        }
        false
    }

    /// Reads a rename block as [`group_spec`] says: entries separated by
    /// `;`, each targeting a field of `fields` that no earlier entry targets.
    pub fn from_tokens(toks: &[Token], fields: &Fields) -> (r: Result<RenameRetypeGroup, BitfieldError>)
        ensures
            match group_spec(toks@, fields.model(), Seq::empty()) {
                Ok(m) => r matches Ok(g) && g.model() == m,
                Err(e) => r matches Err(e2) && e2 == e,
            },
    {
        let mut ret = RenameRetypeGroup(Vec::new());
        let mut pos: usize = 0;
        proof {
            assert(toks@.skip(0) =~= toks@);
            assert(ret.model() =~= Seq::<RenameModel>::empty());
        }
        while pos < toks.len()
            invariant
                pos <= toks@.len(),
                group_spec(toks@, fields.model(), Seq::empty()) == group_spec(
                    toks@.skip(pos as int),
                    fields.model(),
                    ret.model(),
                ),
            decreases toks.len() - pos,
        {
            let ghost t = toks@.skip(pos as int);
            let mut k = pos;
            while k < toks.len() && !is_semicolon(&toks[k])
                invariant
                    pos <= k <= toks@.len(),
                    t == toks@.skip(pos as int),
                    forall|q: int| pos <= q < k ==> toks@[q] != Token::Punct(';'),
                decreases toks.len() - k,
            {
                k = k + 1;
            }
            proof {
                lemma_semicolon_index(t);
                assert(semicolon_index(t) == k - pos) by {
                    let si = semicolon_index(t) as int;
                    if si < k - pos {
                        assert(t[si] == toks@[pos + si]);
                    }
                    if si > k - pos {
                        assert(t[k - pos] == toks@[k as int]);
                    }
                }
            }
            let item = vstd::slice::slice_subrange(toks, pos, k);
            proof {
                assert(item@ =~= t.take(k - pos));
            }
            let one = match RenameRetypeField::from_tokens(item) {
                Ok(one) => one,
                Err(e) => {
                    return Err(e);
                },
            };
            if !fields.has_field(one.target.as_slice()) {
                return Err(BitfieldError::UnknownTarget);
            }
            if ret.has_target(one.target.as_slice()) {
                return Err(BitfieldError::DuplicateTarget);
            }
            let ghost before = ret.model();
            ret.0.push(one);
            proof {
                assert(ret.model() =~= before.push(one.model()));
            }
            if k < toks.len() {
                proof {
                    assert(t.skip(k - pos + 1) =~= toks@.skip(k + 1));
                }
                pos = k + 1;
            } else {
                proof {
                    assert(toks@.skip(k as int) =~= Seq::<Token>::empty());
                }
                pos = k;
            }
        }
        proof {
            assert(toks@.skip(pos as int) =~= Seq::<Token>::empty());
        }
        Ok(ret)
    }
}

/// Whether entry `r` retypes some field it targets to a type narrower than
/// the field.
pub open spec fn retype_too_small(m: Seq<FieldModel>, r: RenameModel) -> bool {
    r.1 is Some && exists|i: int|
        0 <= i < m.len() && #[trigger] m[i].0 == r.0 && bits_spec(r.1.unwrap()) < m[i].1
}

/// The fields after entry `r`: every field called `r.0` takes the entry's
/// type and name where the entry gives them.
pub open spec fn apply_one_spec(m: Seq<FieldModel>, r: RenameModel) -> Seq<FieldModel> {
    Seq::new(
        m.len(),
        |i: int|
            if m[i].0 == r.0 {
                (
                    match r.2 {
                        Some(n) => n,
                        None => m[i].0,
                    },
                    m[i].1,
                    match r.1 {
                        Some(t) => Some(t),
                        None => m[i].2,
                    },
                )
            } else {
                m[i]
            },
    )
}

/// The fields after the entries `rs`, in order, and the error of the first
/// entry that retypes a field to a narrower type (the entries before it
/// applied, none after it).
pub open spec fn apply_all_spec(m: Seq<FieldModel>, rs: Seq<RenameModel>) -> (
    Seq<FieldModel>,
    Option<BitfieldError>,
)
    decreases rs.len(),
{
    if rs.len() == 0 {
        (m, None)
    } else {
        let (m1, e) = apply_all_spec(m, rs.drop_last());
        if e is Some {
            (m1, e)
        } else if retype_too_small(m1, rs.last()) {
            (m1, Some(BitfieldError::RetypeTooSmall))
        } else {
            (apply_one_spec(m1, rs.last()), None)
        }
    }
}

impl RenameRetypeGroup {
    /// Applies the entries to `fields` in order, as [`apply_all_spec`] says:
    /// an entry that retypes a field to a narrower type is refused, and the
    /// fields keep the entries before it.
    pub fn apply_to(&self, fields: &mut Fields) -> (r: Result<(), BitfieldError>)
        ensures
            final(fields).model() == apply_all_spec(old(fields).model(), self.model()).0,
            match apply_all_spec(old(fields).model(), self.model()).1 {
                None => r is Ok,
                Some(e) => r matches Err(e2) && e2 == e,
            },
    {
        let mut k: usize = 0;
        while k < self.0.len()
            invariant
                k <= self.0@.len(),
                apply_all_spec(old(fields).model(), self.model().take(k as int)) == (
                    fields.model(),
                    None::<BitfieldError>,
                ),
            decreases self.0.len() - k,
        {
            let rename = &self.0[k];
            proof {
                assert(self.model().take(k + 1).drop_last() =~= self.model().take(k as int));
                assert(self.model()[k as int] == rename.model());
            }
            let ghost m1 = fields.model();
            // A retype narrower than a field it targets is refused first.
            if let Some(retype) = rename.retype {
                let bits = retype.bits();
                let mut i: usize = 0;
                while i < fields.0.len()
                    invariant
                        i <= fields.0@.len(),
                        k < self.0@.len(),
                        self.0@[k as int] == *rename,
                        self.model().take(k + 1).drop_last() =~= self.model().take(k as int),
                        apply_all_spec(old(fields).model(), self.model().take(k as int)) == (
                            m1,
                            None::<BitfieldError>,
                        ),
                        fields.model() == m1,
                        bits == bits_spec(retype),
                        rename.retype == Some(retype),
                        forall|q: int|
                            0 <= q < i ==> !(fields.model()[q].0 == rename.target@ && bits
                                < fields.model()[q].1),
                    decreases fields.0.len() - i,
                {
                    if chars_eq(fields.0[i].name.as_slice(), rename.target.as_slice())
                        && bits < fields.0[i].width {
                        proof {
                            assert(fields.model()[i as int].0 == rename.target@);
                            assert(retype_too_small(m1, rename.model()));
                            assert(self.model()[k as int] == rename.model());
                            assert(apply_all_spec(old(fields).model(), self.model().take(k + 1)).1
                                is Some);
                            lemma_apply_error_extends(old(fields).model(), self.model(), k + 1);
                            assert(self.model().take(self.model().len() as int) =~= self.model());
                        }
                        return Err(BitfieldError::RetypeTooSmall);
                    }
                    i = i + 1;
                }
            }
            proof {
                assert(!retype_too_small(m1, rename.model()));
            }
            let mut i: usize = 0;
            while i < fields.0.len()
                invariant
                    i <= fields.0@.len(),
                    fields.0@.len() == m1.len(),
                    !retype_too_small(m1, rename.model()),
                    forall|q: int|
                        0 <= q < i ==> #[trigger] fields.model()[q] == apply_one_spec(
                            m1,
                            rename.model(),
                        )[q],
                    forall|q: int| i <= q < fields.0@.len() ==> #[trigger] fields.model()[q] == m1[q],
                decreases fields.0.len() - i,
            {
                proof {
                    assert(fields.model()[i as int] == m1[i as int]);
                    assert(fields.model()[i as int] == field_model(fields.0@[i as int]));
                }
                if chars_eq(fields.0[i].name.as_slice(), rename.target.as_slice()) {
                    let new_retype = match rename.retype {
                        Some(t) => Some(t),
                        None => fields.0[i].retype,
                    };
                    let new_name = match &rename.rename {
                        Some(n) => copy_chars(n),
                        None => copy_chars(&fields.0[i].name),
                    };
                    let width = fields.0[i].width;
                    let ghost before = fields.model();
                    let new_field = Field { name: new_name, width, retype: new_retype };
                    proof {
                        assert(m1[i as int].0 == rename.target@);
                        assert(field_model(new_field) == apply_one_spec(m1, rename.model())[i as int]);
                    }
                    fields.0.set(i, new_field);
                    proof {
                        assert(fields.model() =~= before.update(i as int, field_model(new_field)));
                    }
                } else {
                    proof {
                        assert(m1[i as int].0 != rename.target@);
                    }
                }
                i = i + 1;
            }
            proof {
                assert(fields.model() =~= apply_one_spec(m1, rename.model()));
            }
            k = k + 1;
        }
        proof {
            assert(self.model().take(k as int) =~= self.model());
        }
        Ok(())
    }
}

proof fn lemma_apply_error_extends(m: Seq<FieldModel>, rs: Seq<RenameModel>, n: int)
    requires
        0 < n <= rs.len(),
        apply_all_spec(m, rs.take(n)).1 is Some,
    ensures
        apply_all_spec(m, rs) == apply_all_spec(m, rs.take(n)),
    decreases rs.len(),
{
    if n < rs.len() {
        assert(rs.drop_last().take(n) =~= rs.take(n));
        lemma_apply_error_extends(m, rs.drop_last(), n);
    } else {
        assert(rs.take(n) =~= rs);
    }
}

/// A variable that a pattern read binds: its name, its type, its value.
pub struct Binding {
    pub name: Vec<char>,
    pub ty: BitsType,
    pub value: u128,
}

/// A binding as a value.
pub type BindingModel = (Seq<char>, BitsType, u128);

/// The binding as a value.
pub open spec fn binding_model(b: Binding) -> BindingModel {
    (b.name@, b.ty, b.value)
}

/// The bindings as values, in order.
pub open spec fn bindings_model(v: Seq<Binding>) -> Seq<BindingModel> {
    v.map_values(|b: Binding| binding_model(b))
}

/// Every field is at least one bit wide.
pub open spec fn fields_wf(m: Seq<FieldModel>) -> bool {
    forall|i: int| 0 <= i < m.len() ==> 1 <= #[trigger] m[i].1
}

/// The value of field `i` of a `value` whose low bits the fields cover,
/// most significant field first: the field's bits, shifted down.
pub open spec fn field_value_spec(m: Seq<FieldModel>, i: int, value: u128) -> nat {
    let shift = bit_length_spec(m) - bit_length_spec(m.take(i + 1));
    (value as nat / pow2(shift as nat)) % pow2(m[i].1 as nat)
}

/// The bindings that reading `value` through fields `m` gives, in field
/// order: each field's name, its own type or else `ty`, and its value.
pub open spec fn bindings_spec(m: Seq<FieldModel>, ty: BitsType, value: u128) -> Seq<BindingModel> {
    Seq::new(
        m.len(),
        |i: int|
            (
                m[i].0,
                match m[i].2 {
                    Some(t) => t,
                    None => ty,
                },
                field_value_spec(m, i, value) as u128,
            ),
    )
}

proof fn lemma_bit_length_bounds(m: Seq<FieldModel>)
    requires
        fields_wf(m),
    ensures
        bit_length_spec(m) >= m.len(),
        forall|i: int| 0 <= i < m.len() ==> bit_length_spec(m) >= #[trigger] m[i].1,
    decreases m.len(),
{
    if m.len() > 0 {
        lemma_bit_length_bounds(m.drop_last());
        assert forall|i: int| 0 <= i < m.len() implies bit_length_spec(m) >= #[trigger] m[i].1 by {
            if i < m.len() - 1 {
                assert(m.drop_last()[i] == m[i]);
            }
        }
    }
}

/// `2^n` for `n < 32`.
fn pow2_u128(n: u32) -> (r: u128)
    requires
        n < 32,
    ensures
        r == pow2(n as nat),
        0 < r <= 0x8000_0000,
{
    let mut pow: u128 = 1;
    let mut j: u32 = 0;
    proof {
        lemma2_to64();
    }
    while j < n
        invariant
            j <= n < 32,
            pow == pow2(j as nat),
            pow2(31) == 0x8000_0000,
        decreases n - j,
    {
        proof {
            lemma_pow2_strictly_increases(j as nat, 31);
            lemma_pow2_unfold((j + 1) as nat);
        }
        pow = pow * 2;
        j = j + 1;
    }
    proof {
        if n < 31 {
            lemma_pow2_strictly_increases(n as nat, 31);
        }
        vstd::arithmetic::power2::lemma_pow2_pos(n as nat);
    }
    pow
}

impl Fields {
    /// Reads `value` through the fields, most significant field first, as
    /// [`bindings_spec`] says: one binding per field, in field order. The
    /// fields must cover at most 128 bits, each field between 1 and 31 bits.
    pub fn generate_bindings(&self, value: u128, ty: BitsType) -> (r: Vec<Binding>)
        requires
            fields_wf(self.model()),
            bit_length_spec(self.model()) <= 128,
            forall|i: int| 0 <= i < self.model().len() ==> #[trigger] self.model()[i].1 < 32,
        ensures
            bindings_model(r@) == bindings_spec(self.model(), ty, value),
    {
        let total = self.bit_length();
        let mut out: Vec<Binding> = Vec::new();
        let mut prefix: u32 = 0;
        let mut i: usize = 0;
        proof {
            assert(self.model().take(0) =~= Seq::<FieldModel>::empty());
        }
        while i < self.0.len()
            invariant
                i <= self.0@.len(),
                fields_wf(self.model()),
                total == bit_length_spec(self.model()),
                total <= 128,
                forall|q: int| 0 <= q < self.model().len() ==> #[trigger] self.model()[q].1 < 32,
                prefix == bit_length_spec(self.model().take(i as int)),
                out@.len() == i,
                forall|q: int|
                    0 <= q < i ==> #[trigger] binding_model(out@[q]) == bindings_spec(
                        self.model(),
                        ty,
                        value,
                    )[q],
            decreases self.0.len() - i,
        {
            let field = &self.0[i];
            proof {
                assert(self.model()[i as int] == field_model(*field));
                assert(self.model().take(i + 1).drop_last() =~= self.model().take(i as int));
                lemma_bit_length_prefix(self.model(), i + 1);
                assert(field.width >= 1);
            }
            let width = field.width;
            let end = prefix + width;
            let shift = total - end;
            let pow = pow2_u128(width);
            proof {
                vstd::bits::lemma_u128_shr_is_div(value, shift as u128);
            }
            let bits = (value >> (shift as u128)) % pow;
            let bty = match field.retype {
                Some(t) => t,
                None => ty,
            };
            let b = Binding { name: copy_chars(&field.name), ty: bty, value: bits };
            proof {
                assert(binding_model(b) == bindings_spec(self.model(), ty, value)[i as int]);
            }
            out.push(b);
            prefix = end;
            i = i + 1;
        }
        proof {
            assert(bindings_model(out@) =~= bindings_spec(self.model(), ty, value));
        }
        out
    }
}

/// The fields after the rename block, if there is one: entries parsed as
/// [`group_spec`] says, then applied as [`apply_all_spec`] says.
pub open spec fn renamed_fields(m0: Seq<FieldModel>, renames: Option<Seq<Token>>) -> Result<
    Seq<FieldModel>,
    BitfieldError,
> {
    match renames {
        None => Ok(m0),
        Some(t) => match group_spec(t, m0, Seq::empty()) {
            Err(e) => Err(e),
            Ok(g) => match apply_all_spec(m0, g).1 {
                Some(e) => Err(e),
                None => Ok(apply_all_spec(m0, g).0),
            },
        },
    }
}

/// The type as wide as a total field width, if any.
pub open spec fn type_of_total(n: nat) -> Option<BitsType> {
    if n <= u32::MAX {
        type_of_length(n as u32)
    } else {
        None
    }
}

/// What reading `value` through a pattern gives: the pattern's fields, the
/// rename block applied, the total width naming the whole value's type,
/// every field under 32 bits; then the bindings.
pub open spec fn bitfield_spec(value: u128, pattern: Seq<Token>, renames: Option<Seq<Token>>) -> Result<
    Seq<BindingModel>,
    BitfieldError,
> {
    match pattern_result(pattern) {
        Err(e) => Err(e),
        Ok(m0) => match renamed_fields(m0, renames) {
            Err(e) => Err(e),
            Ok(m1) => match type_of_total(bit_length_spec(m1)) {
                None => Err(BitfieldError::BadLength),
                Some(ty) => if exists|i: int| 0 <= i < m1.len() && #[trigger] m1[i].1 >= 32 {
                    Err(BitfieldError::FieldTooWide)
                } else {
                    Ok(bindings_spec(m1, ty, value))
                },
            },
        },
    }
}

proof fn lemma_extend_wf(m: Seq<FieldModel>, c: char)
    requires
        fields_wf(m),
    ensures
        extend_spec(m, c) matches Some(m2) ==> fields_wf(m2),
{
}

proof fn lemma_extend_all_wf(m: Seq<FieldModel>, s: Seq<char>)
    requires
        fields_wf(m),
    ensures
        extend_all(m, s) matches Some(m2) ==> fields_wf(m2),
    decreases s.len(),
{
    if s.len() > 0 {
        lemma_extend_all_wf(m, s.drop_last());
        if let Some(m1) = extend_all(m, s.drop_last()) {
            lemma_extend_wf(m1, s.last());
        }
    }
}

proof fn lemma_pattern_wf(t: Seq<Token>)
    ensures
        pattern_result(t) matches Ok(m) ==> fields_wf(m),
    decreases t.len(),
{
    if t.len() > 0 {
        lemma_pattern_wf(t.drop_last());
        if let Ok(m) = pattern_result(t.drop_last()) {
            if let Token::Ident(n) = t.last() {
                lemma_extend_all_wf(m, n@);
            }
        }
    }
}

proof fn lemma_apply_all_wf(m: Seq<FieldModel>, rs: Seq<RenameModel>)
    requires
        fields_wf(m),
    ensures
        fields_wf(apply_all_spec(m, rs).0),
    decreases rs.len(),
{
    if rs.len() > 0 {
        lemma_apply_all_wf(m, rs.drop_last());
    }
}

/// Reads `value` through a bit pattern, as [`bitfield_spec`] says: the
/// pattern is a list of identifier tokens whose characters name the fields
/// from the most significant bit down (a run of one character is one
/// field, `_` marks padding), and the optional rename block renames and
/// retypes fields. The result binds each field's value.
pub fn bitfield_read(value: u128, pattern: &[Token], renames: Option<&[Token]>) -> (r: Result<
    Vec<Binding>,
    BitfieldError,
>)
    ensures
        match bitfield_spec(
            value,
            pattern@,
            match renames {
                Some(t) => Some(t@),
                None => None,
            },
        ) {
            Ok(b) => r matches Ok(v) && bindings_model(v@) == b,
            Err(e) => r matches Err(e2) && e2 == e,
        },
{
    let mut fields = match Fields::from_pattern(pattern) {
        Ok(f) => f,
        Err(e) => {
            return Err(e);
        },
    };
    let ghost m0 = fields.model();
    let ghost rv = match renames {
        Some(t) => Some(t@),
        None => None,
    };
    proof {
        lemma_pattern_wf(pattern@);
        assert(pattern_result(pattern@) == Ok::<Seq<FieldModel>, BitfieldError>(m0));
        assert(fields_wf(m0));
    }
    if let Some(t) = renames {
        let group = match RenameRetypeGroup::from_tokens(t, &fields) {
            Ok(g) => g,
            Err(e) => {
                return Err(e);
            },
        };
        match group.apply_to(&mut fields) {
            Ok(()) => {},
            Err(e) => {
                return Err(e);
            },
        }
        proof {
            lemma_apply_all_wf(m0, group.model());
            assert(renamed_fields(m0, rv) == Ok::<Seq<FieldModel>, BitfieldError>(fields.model()));
        }
    }
    assert(fields_wf(fields.model()));
    assert(renamed_fields(m0, rv) == Ok::<Seq<FieldModel>, BitfieldError>(fields.model()));
    // A total over 128 bits names no type; counting only up to there keeps
    // the sum small.
    let n = fields.0.len();
    let mut i: usize = 0;
    while i < n && fields.0[i].width <= 128
        invariant
            n == fields.0@.len(),
            i <= n,
            forall|q: int| 0 <= q < i ==> #[trigger] fields.model()[q].1 <= 128,
        decreases n - i,
    {
        proof {
            assert(fields.model()[i as int] == field_model(fields.0@[i as int]));
        }
        i = i + 1;
    }
    proof {
        lemma_bit_length_bounds(fields.model());
        if i < n {
            assert(fields.model()[i as int] == field_model(fields.0@[i as int]));
        }
    }
    if n > 128 || i < n {
        proof {
            if i < n {
                assert(fields.model()[i as int].1 > 128);
            }
            assert(bit_length_spec(fields.model()) > 128);
            assert(type_of_total(bit_length_spec(fields.model())) is None);
        }
        return Err(BitfieldError::BadLength);
    }
    proof {
        lemma_bit_length_sum_bound(fields.model());
    }
    let total = fields.bit_length();
    assert(type_of_total(bit_length_spec(fields.model())) == type_of_length(total));
    let ty = match BitsType::from_bit_length(total) {
        Some(ty) => ty,
        None => {
            return Err(BitfieldError::BadLength);
        },
    };
    let mut j: usize = 0;
    while j < n
        invariant
            n == fields.0@.len(),
            j <= n,
            forall|q: int| 0 <= q < j ==> #[trigger] fields.model()[q].1 < 32,
            pattern_result(pattern@) == Ok::<Seq<FieldModel>, BitfieldError>(m0),
            rv == match renames {
                Some(t) => Some(t@),
                None => None,
            },
            renamed_fields(m0, rv) == Ok::<Seq<FieldModel>, BitfieldError>(fields.model()),
            type_of_total(bit_length_spec(fields.model())) == Some(ty),
        decreases n - j,
    {
        proof {
            assert(fields.model()[j as int] == field_model(fields.0@[j as int]));
        }
        if fields.0[j].width >= 32 {
            assert(fields.model()[j as int].1 >= 32);
            return Err(BitfieldError::FieldTooWide);
        }
        j = j + 1;
    }
    Ok(fields.generate_bindings(value, ty))
}

proof fn lemma_bit_length_sum_bound(m: Seq<FieldModel>)
    requires
        m.len() <= 128,
        forall|q: int| 0 <= q < m.len() ==> #[trigger] m[q].1 <= 128,
    ensures
        bit_length_spec(m) <= 128 * m.len(),
    decreases m.len(),
{
    if m.len() > 0 {
        assert forall|q: int| 0 <= q < m.drop_last().len() implies #[trigger] m.drop_last()[q].1 <= 128 by {
            assert(m.drop_last()[q] == m[q]);
        }
        lemma_bit_length_sum_bound(m.drop_last());
    }
}

/// Where field `i` starts, counted in bits from the least significant end.
pub open spec fn field_offset(m: Seq<FieldModel>, i: int) -> int {
    bit_length_spec(m) - bit_length_spec(m.take(i + 1))
}

/// Sum of a sequence of integers.
pub open spec fn sum_int(s: Seq<int>) -> int
    decreases s.len(),
{
    if s.len() == 0 {
        0
    } else {
        s[0] + sum_int(s.drop_first())
    }
}

/// Each field's value put back at its offset.
pub open spec fn placed_fields(m: Seq<FieldModel>, value: u128) -> Seq<int> {
    Seq::new(
        m.len(),
        |i: int| (field_value_spec(m, i, value) * pow2(field_offset(m, i) as nat)) as int,
    )
}

proof fn lemma_bit_length_first(m: Seq<FieldModel>)
    requires
        m.len() > 0,
    ensures
        bit_length_spec(m) == m[0].1 + bit_length_spec(m.drop_first()),
    decreases m.len(),
{
    if m.len() == 1 {
        assert(m.drop_first() =~= Seq::<FieldModel>::empty());
        assert(m.drop_last() =~= Seq::<FieldModel>::empty());
    } else {
        lemma_bit_length_first(m.drop_last());
        assert(m.drop_last().drop_first() =~= m.drop_first().drop_last());
        assert(m.drop_last()[0] == m[0]);
        assert(m.drop_first().last() == m.last());
    }
}

proof fn lemma_offsets_after_first(m: Seq<FieldModel>, i: int)
    requires
        m.len() > 0,
        1 <= i < m.len(),
    ensures
        field_offset(m, i) == field_offset(m.drop_first(), i - 1),
        field_offset(m, 0) == bit_length_spec(m.drop_first()),
{
    lemma_bit_length_first(m);
    lemma_bit_length_first(m.take(i + 1));
    assert(m.take(i + 1).drop_first() =~= m.drop_first().take(i));
    assert(m.take(i + 1)[0] == m[0]);
    lemma_bit_length_first(m.take(1));
    assert(m.take(1).drop_first() =~= Seq::<FieldModel>::empty());
    assert(m.take(1)[0] == m[0]);
}

/// The fields of a pattern cover the value exactly: putting every field's
/// value back at its offset rebuilds the value's low bits, as many as the
/// fields are wide.
pub proof fn lemma_fields_rebuild_value(m: Seq<FieldModel>, value: u128)
    requires
        fields_wf(m),
    ensures
        sum_int(placed_fields(m, value)) == value as nat % pow2(bit_length_spec(m)),
    decreases m.len(),
{
    let v = value as nat;
    if m.len() == 0 {
        assert(pow2(0) == 1) by {
            lemma2_to64();
        }
        assert(v % 1 == 0);
    } else {
        let rest = m.drop_first();
        let lr = bit_length_spec(rest);
        let w0 = m[0].1 as nat;
        assert(fields_wf(rest)) by {
            assert forall|q: int| 0 <= q < rest.len() implies 1 <= #[trigger] rest[q].1 by {
                assert(rest[q] == m[q + 1]);
            }
        }
        lemma_fields_rebuild_value(rest, value);
        lemma_bit_length_first(m);
        if m.len() > 1 {
            lemma_offsets_after_first(m, 1);
        }
        assert(field_offset(m, 0) == lr) by {
            lemma_bit_length_first(m.take(1));
            assert(m.take(1).drop_first() =~= Seq::<FieldModel>::empty());
            assert(m.take(1)[0] == m[0]);
        }
        assert(placed_fields(m, value).drop_first() =~= placed_fields(rest, value)) by {
            assert forall|q: int| 0 <= q < rest.len() implies #[trigger] placed_fields(m, value).drop_first()[q]
                == placed_fields(rest, value)[q] by {
                lemma_offsets_after_first(m, q + 1);
                assert(m.take(q + 2).drop_first() =~= rest.take(q + 1));
                assert(m[q + 1] == rest[q]);
            }
        }
        vstd::arithmetic::power2::lemma_pow2_pos(lr);
        vstd::arithmetic::power2::lemma_pow2_pos(w0);
        vstd::arithmetic::power2::lemma_pow2_adds(lr, w0);
        vstd::arithmetic::div_mod::lemma_mod_breakdown(v as int, pow2(lr) as int, pow2(w0) as int);
        assert(bit_length_spec(m) == lr + w0);
        assert(placed_fields(m, value)[0] == ((v / pow2(lr)) % pow2(w0)) * pow2(lr));
        assert(((v / pow2(lr)) % pow2(w0)) * pow2(lr) == pow2(lr) * ((v / pow2(lr)) % pow2(w0)))
            by (nonlinear_arith);
    }
}

/// Why a bit pattern read was refused.
#[derive(Clone, Copy, Debug, PartialEq, Eq, Structural)]
pub enum BitfieldError {
    /// The pattern holds something other than identifiers.
    UnexpectedToken,
    /// A pattern character names a second, separate field.
    RepeatedField,
    /// A rename/retype entry has none of its three shapes.
    BadRename,
    /// A retype names no known type.
    InvalidType,
    /// A rename/retype targets no field.
    UnknownTarget,
    /// A field is renamed/retyped twice.
    DuplicateTarget,
    /// A retype is narrower than its field.
    RetypeTooSmall,
    /// The fields add up to no width of a known type.
    BadLength,
    /// A field is 32 bits wide or more.
    FieldTooWide,
}

} // verus!

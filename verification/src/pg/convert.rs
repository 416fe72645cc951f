//! Identifier quoting, the decoder chosen for each column type, the typing
//! of key parameters, and the decoding of cells.

use vstd::prelude::*;

use crate::json::{
    json_number_from_text, json_text, number_as_i64, number_text, parse_json_number, JsonModel,
    JsonNumber, JsonValue, NumberModel,
};
use crate::text::{
    chars_of, debug_quoted, debug_text, float_syntax, i64_text, is_float_text, parse_i64,
    parse_signed, signed_decimal, str_eq, string_from_chars, trim, trim_chars, trim_str,
};

verus! {

// ---------------------------------------------------------------------------
// Identifier quoting
// ---------------------------------------------------------------------------

/// The characters a single identifier character becomes inside double
/// quotes: a double quote is doubled, everything else stands as it is.
pub open spec fn escape_char(c: char) -> Seq<char> {
    if c == '"' {
        seq!['"', '"']
    } else {
        seq![c]
    }
}

/// The interior of a quoted identifier.
pub open spec fn escape_ident(s: Seq<char>) -> Seq<char>
    decreases s.len(),
{
    if s.len() == 0 {
        Seq::empty()
    } else {
        escape_char(s[0]) + escape_ident(s.drop_first())
    }
}

/// A quoted identifier: double quotes around the escaped characters.
pub open spec fn quoted_ident(s: Seq<char>) -> Seq<char> {
    seq!['"'] + escape_ident(s) + seq!['"']
}

/// The message for an identifier that holds a NUL character.
pub open spec fn nul_ident_error(s: Seq<char>) -> Seq<char> {
    "Invalid identifier "@ + debug_text(s) + ": contains a NUL byte"@
}

/// How PostgreSQL's lexer reads the rest of a quoted identifier once its
/// opening quote is consumed: characters up to the first lone double quote,
/// each doubled quote standing for one. It gives the identifier and the
/// number of characters consumed, closing quote included, or `None` where
/// the text ends first.
pub open spec fn lex_quoted_rest(t: Seq<char>) -> Option<(Seq<char>, int)>
    decreases t.len(),
{
    if t.len() == 0 {
        None
    } else if t[0] == '"' {
        if t.len() >= 2 && t[1] == '"' {
            match lex_quoted_rest(t.skip(2)) {
                Some((body, n)) => Some((seq!['"'] + body, n + 2)),
                None => None,
            }
        } else {
            Some((Seq::empty(), 1))
        }
    } else {
        match lex_quoted_rest(t.skip(1)) {
            Some((body, n)) => Some((seq![t[0]] + body, n + 1)),
            None => None,
        }
    }
}

/// How PostgreSQL's lexer reads a quoted identifier at the start of `t`.
pub open spec fn lex_quoted_ident(t: Seq<char>) -> Option<(Seq<char>, int)> {
    if t.len() > 0 && t[0] == '"' {
        match lex_quoted_rest(t.skip(1)) {
            Some((body, n)) => Some((body, n + 1)),
            None => None,
        }
    } else {
        None
    }
}

proof fn lemma_escape_push(s: Seq<char>, c: char)
    ensures
        escape_ident(s.push(c)) == escape_ident(s) + escape_char(c),
    decreases s.len(),
{
    if s.len() == 0 {
        assert(s.push(c).drop_first() =~= Seq::<char>::empty());
        assert(escape_ident(Seq::<char>::empty()) =~= Seq::<char>::empty());
        assert(escape_ident(s.push(c)) =~= escape_char(c));
    } else {
        assert(s.push(c).drop_first() =~= s.drop_first().push(c));
        lemma_escape_push(s.drop_first(), c);
        assert(escape_ident(s.push(c)) =~= escape_ident(s) + escape_char(c));
    }
}

proof fn lemma_lex_escaped(s: Seq<char>, rest: Seq<char>)
    requires
        rest.len() == 0 || rest[0] != '"',
    ensures
        lex_quoted_rest(escape_ident(s) + seq!['"'] + rest) == Some(
            (s, escape_ident(s).len() as int + 1),
        ),
    decreases s.len(),
{
    let t = escape_ident(s) + seq!['"'] + rest;
    if s.len() == 0 {
        assert(t =~= seq!['"'] + rest);
        assert(t.len() < 2 || t[1] != '"');
        assert(s =~= Seq::<char>::empty());
    } else {
        let tail = escape_ident(s.drop_first()) + seq!['"'] + rest;
        lemma_lex_escaped(s.drop_first(), rest);
        if s[0] == '"' {
            assert(t =~= seq!['"', '"'] + tail);
            assert(t.skip(2) =~= tail);
            assert(seq!['"'] + s.drop_first() =~= s);
        } else {
            assert(t =~= seq![s[0]] + tail);
            assert(t.skip(1) =~= tail);
            assert(seq![s[0]] + s.drop_first() =~= s);
        }
    }
}

/// The lexer reads a quoted identifier back as exactly the identifier that
/// was quoted, and stops right after its closing quote, whatever text that
/// does not begin with a double quote follows it. So no identifier can
/// end the quoting early and reach the SQL around it.
pub proof fn lemma_quoted_ident_reads_back(s: Seq<char>, rest: Seq<char>)
    requires
        rest.len() == 0 || rest[0] != '"',
    ensures
        lex_quoted_ident(quoted_ident(s) + rest) == Some((s, quoted_ident(s).len() as int)),
{
    let t = quoted_ident(s) + rest;
    lemma_lex_escaped(s, rest);
    assert(t.skip(1) =~= escape_ident(s) + seq!['"'] + rest);
}

/// Two identifiers quote to the same text only when they are the same.
pub proof fn lemma_quoted_ident_injective(a: Seq<char>, b: Seq<char>)
    requires
        quoted_ident(a) == quoted_ident(b),
    ensures
        a == b,
{
    lemma_quoted_ident_reads_back(a, Seq::empty());
    lemma_quoted_ident_reads_back(b, Seq::empty());
    assert(quoted_ident(a) + Seq::<char>::empty() =~= quoted_ident(a));
    assert(quoted_ident(b) + Seq::<char>::empty() =~= quoted_ident(b));
}

/// Quotes `ident` as a PostgreSQL identifier: double quotes around it, each
/// double quote inside doubled. An identifier holding a NUL character is
/// refused, since PostgreSQL cannot represent it.
pub fn quote_ident(ident: &str) -> (r: Result<String, String>)
    ensures
        match r {
            Ok(q) => !ident@.contains('\0') && q@ == quoted_ident(ident@),
            Err(e) => ident@.contains('\0') && e@ == nul_ident_error(ident@),
        },
{
    let v = chars_of(ident);
    let mut out: Vec<char> = Vec::new();
    out.push('"');
    let mut i: usize = 0;
    while i < v.len()
        invariant
            i <= v.len(),
            v@ == ident@,
            out@ == seq!['"'] + escape_ident(v@.take(i as int)),
            forall|j: int| 0 <= j < i ==> v@[j] != '\0',
        decreases v.len() - i,
    {
        let c = v[i];
        if c == '\0' {
            let mut e = String::new();
            e.append("Invalid identifier ");
            let d = debug_quoted(ident);
            e.append(d.as_str());
            e.append(": contains a NUL byte");
            assert(ident@.contains('\0')) by {
                assert(ident@[i as int] == '\0');
            }
            return Err(e);
        }
        proof {
            assert(v@.take(i + 1) =~= v@.take(i as int).push(c));
            lemma_escape_push(v@.take(i as int), c);
        }
        out.push(c);
        if c == '"' {
            out.push('"');
        }
        assert(out@ =~= seq!['"'] + escape_ident(v@.take(i + 1)));
        i = i + 1;
    }
    out.push('"');
    assert(v@.take(v@.len() as int) =~= v@);
    assert(out@ =~= quoted_ident(ident@));
    assert(!ident@.contains('\0')) by {
        if ident@.contains('\0') {
            let j = choose|j: int| 0 <= j < ident@.len() && ident@[j] == '\0';
            assert(v@[j] != '\0');
        }
    }
    Ok(string_from_chars(out.as_slice()))
}

/// `schema.table`, both parts quoted.
pub open spec fn qualified(schema: Seq<char>, table: Seq<char>) -> Seq<char> {
    quoted_ident(schema) + seq!['.'] + quoted_ident(table)
}

/// `schema.table`, both parts quoted. The schema's error comes first.
pub fn qualified_name(schema: &str, table: &str) -> (r: Result<String, String>)
    ensures
        match r {
            Ok(q) => !schema@.contains('\0') && !table@.contains('\0') && q@ == qualified(
                schema@,
                table@,
            ),
            Err(e) => if schema@.contains('\0') {
                e@ == nul_ident_error(schema@)
            } else {
                table@.contains('\0') && e@ == nul_ident_error(table@)
            },
        },
{
    let s = quote_ident(schema)?;
    let t = quote_ident(table)?;
    let mut q = s;
    q.append(".");
    q.append(t.as_str());
    proof {
        reveal_strlit(".");
    }
    assert(q@ =~= qualified(schema@, table@));
    Ok(q)
}

/// A qualified name reads back, part by part, as the schema and the table
/// it was made of.
pub proof fn lemma_qualified_reads_back(schema: Seq<char>, table: Seq<char>)
    ensures
        ({
            let q = qualified(schema, table);
            let n = quoted_ident(schema).len() as int;
            &&& lex_quoted_ident(q) == Some((schema, n))
            &&& q[n] == '.'
            &&& lex_quoted_ident(q.skip(n + 1)) == Some((table, quoted_ident(table).len() as int))
        }),
{
    let q = qualified(schema, table);
    let n = quoted_ident(schema).len() as int;
    let rest = seq!['.'] + quoted_ident(table);
    assert(q =~= quoted_ident(schema) + rest);
    lemma_quoted_ident_reads_back(schema, rest);
    lemma_quoted_ident_reads_back(table, Seq::empty());
    assert(q.skip(n + 1) =~= quoted_ident(table) + Seq::<char>::empty());
}

// ---------------------------------------------------------------------------
// Column types
// ---------------------------------------------------------------------------

/// `bool`.
pub const BOOL_OID: u32 = 16;
/// `name`.
pub const NAME_OID: u32 = 19;
/// `bigint`.
pub const INT8_OID: u32 = 20;
/// `smallint`.
pub const INT2_OID: u32 = 21;
/// `integer`.
pub const INT4_OID: u32 = 23;
/// `text`.
pub const TEXT_OID: u32 = 25;
/// `real`.
pub const FLOAT4_OID: u32 = 700;
/// `double precision`.
pub const FLOAT8_OID: u32 = 701;
/// `character(n)`.
pub const BPCHAR_OID: u32 = 1042;
/// `character varying`.
pub const VARCHAR_OID: u32 = 1043;
/// `uuid`.
pub const UUID_OID: u32 = 2950;

/// A column type as the server reports it: its OID and its name.
#[derive(Clone, Debug, PartialEq, Eq)]
pub struct PgType {
    pub oid: u32,
    pub name: String,
}

impl PgType {
    /// An independent copy.
    pub fn copy(&self) -> (r: PgType)
        ensures
            r.oid == self.oid,
            r.name@ == self.name@,
    {
        PgType { oid: self.oid, name: self.name.clone() }
    }
}

/// Types that are text on the wire.
pub open spec fn is_text_type(oid: u32) -> bool {
    oid == TEXT_OID || oid == VARCHAR_OID || oid == BPCHAR_OID || oid == NAME_OID
}

/// How a column's values are read.
#[derive(Clone, Copy, Debug, PartialEq, Eq, Structural)]
pub enum Decoder {
    Bool,
    Int2,
    Int4,
    Int8,
    Float4,
    Float8,
    /// Already text on the wire, so no cast is needed.
    Text,
    /// Cast to `text` in the query and read back as a string: PostgreSQL
    /// renders the value, and the library carries it.
    AsText,
}

/// The decoder for a column of type `oid`: native decoding for booleans,
/// integers, floats and text, the server's text form for everything else.
pub open spec fn decoder_for(oid: u32) -> Decoder {
    if oid == BOOL_OID {
        Decoder::Bool
    } else if oid == INT2_OID {
        Decoder::Int2
    } else if oid == INT4_OID {
        Decoder::Int4
    } else if oid == INT8_OID {
        Decoder::Int8
    } else if oid == FLOAT4_OID {
        Decoder::Float4
    } else if oid == FLOAT8_OID {
        Decoder::Float8
    } else if is_text_type(oid) {
        Decoder::Text
    } else {
        Decoder::AsText
    }
}

impl Decoder {
    /// The decoder for a column of type `ty`.
    pub fn for_type(ty: &PgType) -> (d: Decoder)
        ensures
            d == decoder_for(ty.oid),
    {
        let oid = ty.oid;
        if oid == BOOL_OID {
            Decoder::Bool
        } else if oid == INT2_OID {
            Decoder::Int2
        } else if oid == INT4_OID {
            Decoder::Int4
        } else if oid == INT8_OID {
            Decoder::Int8
        } else if oid == FLOAT4_OID {
            Decoder::Float4
        } else if oid == FLOAT8_OID {
            Decoder::Float8
        } else if oid == TEXT_OID || oid == VARCHAR_OID || oid == BPCHAR_OID || oid == NAME_OID {
            Decoder::Text
        } else {
            Decoder::AsText
        }
    }

    /// Whether the query must cast the column to `text`.
    pub fn needs_cast(self) -> (r: bool)
        ensures
            r == (self == Decoder::AsText),
    {
        matches!(self, Decoder::AsText)
    }
}

// ---------------------------------------------------------------------------
// Column plans
// ---------------------------------------------------------------------------

/// A column of a relation, by name and type.
#[derive(Clone, Debug)]
pub struct ColumnDesc {
    pub name: String,
    pub ty: PgType,
}

/// The model of a planned column.
pub ghost struct ColumnModel {
    pub name: Seq<char>,
    pub oid: u32,
    pub ty_name: Seq<char>,
}

struct PlannedColumn {
    name: String,
    ty: PgType,
    decoder: Decoder,
}

/// The columns of a relation, in table order, each with the decoder its type
/// calls for.
pub struct ColumnPlan {
    columns: Vec<PlannedColumn>,
}

impl View for ColumnPlan {
    type V = Seq<ColumnModel>;

    closed spec fn view(&self) -> Seq<ColumnModel> {
        Seq::new(
            self.columns@.len(),
            |i: int|
                ColumnModel {
                    name: self.columns@[i].name@,
                    oid: self.columns@[i].ty.oid,
                    ty_name: self.columns@[i].ty.name@,
                },
        )
    }
}

/// The model of a column description.
pub open spec fn column_model(c: ColumnDesc) -> ColumnModel {
    ColumnModel { name: c.name@, oid: c.ty.oid, ty_name: c.ty.name@ }
}

/// The SELECT-list term for a column: its quoted name, cast to `text` where
/// PostgreSQL should render the value.
pub open spec fn select_term(c: ColumnModel) -> Seq<char> {
    if decoder_for(c.oid) == Decoder::AsText {
        quoted_ident(c.name) + "::text"@
    } else {
        quoted_ident(c.name)
    }
}

/// The elements of `list` with `sep` between them.
pub open spec fn join(list: Seq<Seq<char>>, sep: Seq<char>) -> Seq<char>
    decreases list.len(),
{
    if list.len() == 0 {
        Seq::empty()
    } else if list.len() == 1 {
        list[0]
    } else {
        join(list.drop_last(), sep) + sep + list.last()
    }
}

/// Whether no name in `names` holds a NUL character.
pub open spec fn all_quotable(names: Seq<Seq<char>>) -> bool {
    forall|i: int| 0 <= i < names.len() ==> !(#[trigger] names[i]).contains('\0')
}

/// The first name in `names` that holds a NUL character.
pub open spec fn first_unquotable(names: Seq<Seq<char>>) -> Seq<char>
    decreases names.len(),
{
    if names.len() == 0 {
        Seq::empty()
    } else if names[0].contains('\0') {
        names[0]
    } else {
        first_unquotable(names.drop_first())
    }
}

/// The names of the columns of a plan.
pub open spec fn plan_names(plan: Seq<ColumnModel>) -> Seq<Seq<char>> {
    plan.map_values(|c: ColumnModel| c.name)
}

proof fn lemma_join_push(list: Seq<Seq<char>>, x: Seq<char>, sep: Seq<char>)
    ensures
        join(list.push(x), sep) == if list.len() == 0 {
            x
        } else {
            join(list, sep) + sep + x
        },
{
    assert(list.push(x).drop_last() =~= list);
}

proof fn lemma_first_unquotable_push(names: Seq<Seq<char>>, x: Seq<char>)
    requires
        all_quotable(names),
    ensures
        first_unquotable(names.push(x)) == first_unquotable(seq![x]),
    decreases names.len(),
{
    if names.len() > 0 {
        assert(names.push(x).drop_first() =~= names.drop_first().push(x));
        assert(!names[0].contains('\0'));
        lemma_first_unquotable_push(names.drop_first(), x);
    } else {
        assert(names.push(x) =~= seq![x]);
    }
}

/// Joins `parts` with `", "`.
fn join_comma(parts: &Vec<String>) -> (r: String)
    ensures
        r@ == join(parts@.map_values(|p: String| p@), ", "@),
{
    let ghost views = parts@.map_values(|p: String| p@);
    let mut out = String::new();
    let mut i: usize = 0;
    while i < parts.len()
        invariant
            i <= parts.len(),
            views == parts@.map_values(|p: String| p@),
            out@ == join(views.take(i as int), ", "@),
        decreases parts.len() - i,
    {
        proof {
            assert(views.take(i + 1) =~= views.take(i as int).push(views[i as int]));
            lemma_join_push(views.take(i as int), views[i as int], ", "@);
        }
        if i > 0 {
            out.append(", ");
        } else {
            assert(views.take(0) =~= Seq::<Seq<char>>::empty());
        }
        out.append(parts[i].as_str());
        i = i + 1;
    }
    assert(views.take(parts.len() as int) =~= views);
    out
}

impl ColumnPlan {
    #[verifier::type_invariant]
    spec fn decoders_match(self) -> bool {
        forall|i: int|
            0 <= i < self.columns@.len() ==> (#[trigger] self.columns@[i]).decoder
                == decoder_for(self.columns@[i].ty.oid)
    }

    /// The plan for a relation with these columns, in this order.
    pub fn from_columns(columns: &[ColumnDesc]) -> (plan: ColumnPlan)
        ensures
            plan@ == columns@.map_values(|c: ColumnDesc| column_model(c)),
    {
        let mut planned: Vec<PlannedColumn> = Vec::new();
        let mut i: usize = 0;
        while i < columns.len()
            invariant
                i <= columns.len(),
                planned@.len() == i,
                forall|j: int|
                    0 <= j < i ==> {
                        &&& (#[trigger] planned@[j]).name@ == columns@[j].name@
                        &&& planned@[j].ty.oid == columns@[j].ty.oid
                        &&& planned@[j].ty.name@ == columns@[j].ty.name@
                        &&& planned@[j].decoder == decoder_for(planned@[j].ty.oid)
                    },
            decreases columns.len() - i,
        {
            let c = &columns[i];
            planned.push(
                PlannedColumn {
                    name: c.name.clone(),
                    ty: c.ty.copy(),
                    decoder: Decoder::for_type(&c.ty),
                },
            );
            i = i + 1;
        }
        let plan = ColumnPlan { columns: planned };
        assert(plan@ =~= columns@.map_values(|c: ColumnDesc| column_model(c)));
        plan
    }

    /// Whether the relation has no columns. `CREATE TABLE t ()` is legal
    /// PostgreSQL and an empty SELECT list is not, so callers check this
    /// before building a query.
    pub fn is_empty(&self) -> (r: bool)
        ensures
            r == (self@.len() == 0),
    {
        self.columns.len() == 0
    }

    /// The number of columns.
    pub fn len(&self) -> (r: usize)
        ensures
            r == self@.len(),
    {
        self.columns.len()
    }

    /// The decoder of the column at `index`.
    pub fn decoder(&self, index: usize) -> (d: Decoder)
        requires
            index < self@.len(),
        ensures
            d == decoder_for(self@[index as int].oid),
    {
        proof {
            use_type_invariant(self);
        }
        self.columns[index].decoder
    }

    /// Column names in table order.
    pub fn names(&self) -> (r: Vec<String>)
        ensures
            r@.map_values(|n: String| n@) == plan_names(self@),
    {
        let mut r: Vec<String> = Vec::new();
        let mut i: usize = 0;
        while i < self.columns.len()
            invariant
                i <= self.columns@.len(),
                r@.len() == i,
                forall|j: int| 0 <= j < i ==> (#[trigger] r@[j])@ == self.columns@[j].name@,
            decreases self.columns@.len() - i,
        {
            r.push(self.columns[i].name.clone());
            i = i + 1;
        }
        assert(r@.map_values(|n: String| n@) =~= plan_names(self@));
        r
    }

    /// The index of the first column named `column`, if any.
    fn position(&self, column: &str) -> (r: Option<usize>)
        ensures
            match r {
                Some(j) => j < self@.len() && self@[j as int].name == column@ && forall|k: int|
                    0 <= k < j ==> self@[k].name != column@,
                None => forall|k: int| 0 <= k < self@.len() ==> self@[k].name != column@,
            },
    {
        let mut i: usize = 0;
        while i < self.columns.len()
            invariant
                i <= self.columns@.len(),
                forall|k: int| 0 <= k < i ==> self@[k].name != column@,
            decreases self.columns@.len() - i,
        {
            if str_eq(self.columns[i].name.as_str(), column) {
                return Some(i);
            }
            i = i + 1;
        }
        None
    }

    /// Whether the relation has a column named `column`.
    pub fn has_column(&self, column: &str) -> (r: bool)
        ensures
            r == exists|k: int| 0 <= k < self@.len() && self@[k].name == column@,
    {
        match self.position(column) {
            Some(j) => true,
            None => false,
        }
    }

    /// How to compare `column` against a bound key value, or `None` if the
    /// relation has no column by that name. The comparison follows the
    /// column's type, never the shape of the key value.
    pub fn key_predicate(&self, column: &str) -> (r: Option<KeyPredicate>)
        ensures
            match r {
                Some(p) => exists|j: int|
                    0 <= j < self@.len() && self@[j].name == column@ && (forall|k: int|
                        0 <= k < j ==> self@[k].name != column@) && p@ == predicate_for(
                        self@[j].oid,
                        self@[j].ty_name,
                    ),
                None => forall|k: int| 0 <= k < self@.len() ==> self@[k].name != column@,
            },
    {
        match self.position(column) {
            Some(j) => Some(KeyPredicate::for_type(&self.columns[j].ty)),
            None => None,
        }
    }

    /// The SELECT list for the real query: a bare identifier where the value
    /// is decoded natively, `"col"::text` where PostgreSQL renders it.
    pub fn select_list(&self) -> (r: Result<String, String>)
        ensures
            match r {
                Ok(s) => all_quotable(plan_names(self@)) && s@ == join(
                    self@.map_values(|c: ColumnModel| select_term(c)),
                    ", "@,
                ),
                Err(e) => !all_quotable(plan_names(self@)) && e@ == nul_ident_error(
                    first_unquotable(plan_names(self@)),
                ),
            },
    {
        proof {
            use_type_invariant(self);
        }
        let ghost names = plan_names(self@);
        let ghost terms = self@.map_values(|c: ColumnModel| select_term(c));
        let mut parts: Vec<String> = Vec::new();
        let mut i: usize = 0;
        while i < self.columns.len()
            invariant
                i <= self.columns@.len(),
                names == plan_names(self@),
                terms == self@.map_values(|c: ColumnModel| select_term(c)),
                parts@.len() == i,
                forall|j: int| 0 <= j < i ==> (#[trigger] parts@[j])@ == terms[j],
                all_quotable(names.take(i as int)),
                forall|j: int|
                    0 <= j < self.columns@.len() ==> (#[trigger] self.columns@[j]).decoder
                        == decoder_for(self.columns@[j].ty.oid),
            decreases self.columns@.len() - i,
        {
            let column = &self.columns[i];
            let ident = match quote_ident(column.name.as_str()) {
                Ok(q) => q,
                Err(e) => {
                    proof {
                        assert(names[i as int] == column.name@);
                        lemma_first_unquotable_push(names.take(i as int), names[i as int]);
                        lemma_first_unquotable_prefix(names, i as int);
                        assert(!all_quotable(names)) by {
                            assert(names[i as int].contains('\0'));
                        }
                    }
                    return Err(e);
                },
            };
            let part = if column.decoder.needs_cast() {
                let mut p = ident;
                p.append("::text");
                p
            } else {
                ident
            };
            assert(part@ == terms[i as int]);
            parts.push(part);
            assert(names.take(i + 1) =~= names.take(i as int).push(names[i as int]));
            i = i + 1;
        }
        assert(parts@.map_values(|p: String| p@) =~= terms);
        assert(names.take(self.columns@.len() as int) =~= names);
        Ok(join_comma(&parts))
    }
}

proof fn lemma_first_unquotable_prefix(names: Seq<Seq<char>>, i: int)
    requires
        0 <= i < names.len(),
        all_quotable(names.take(i)),
        names[i].contains('\0'),
    ensures
        first_unquotable(names) == names[i],
    decreases i,
{
    if i > 0 {
        assert(!names.take(i)[0].contains('\0'));
        assert(names.drop_first().take(i - 1) =~= names.take(i).drop_first());
        lemma_first_unquotable_prefix(names.drop_first(), i - 1);
    }
}

/// The views of a vector of strings.
pub open spec fn views(v: Seq<String>) -> Seq<Seq<char>> {
    v.map_values(|s: String| s@)
}

/// Quotes each identifier of `idents`; the first that holds a NUL character
/// gives the error.
pub fn quote_all(idents: &Vec<String>) -> (r: Result<Vec<String>, String>)
    ensures
        match r {
            Ok(qs) => all_quotable(views(idents@)) && qs@.len() == idents@.len() && forall|i: int|
                0 <= i < idents@.len() ==> (#[trigger] qs@[i])@ == quoted_ident(idents@[i]@),
            Err(e) => !all_quotable(views(idents@)) && e@ == nul_ident_error(
                first_unquotable(views(idents@)),
            ),
        },
{
    let ghost names = views(idents@);
    let mut qs: Vec<String> = Vec::new();
    let mut i: usize = 0;
    while i < idents.len()
        invariant
            i <= idents@.len(),
            names == views(idents@),
            qs@.len() == i,
            forall|j: int| 0 <= j < i ==> (#[trigger] qs@[j])@ == quoted_ident(idents@[j]@),
            all_quotable(names.take(i as int)),
        decreases idents@.len() - i,
    {
        match quote_ident(idents[i].as_str()) {
            Ok(q) => {
                qs.push(q);
            },
            Err(e) => {
                proof {
                    assert(names[i as int] == idents@[i as int]@);
                    lemma_first_unquotable_prefix(names, i as int);
                    assert(!all_quotable(names)) by {
                        assert(names[i as int].contains('\0'));
                    }
                }
                return Err(e);
            },
        }
        assert(names.take(i + 1) =~= names.take(i as int).push(names[i as int]));
        i = i + 1;
    }
    assert(names.take(idents@.len() as int) =~= names);
    Ok(qs)
}

/// The ORDER BY term for the user's sort column: compared natively where
/// its type orders, by its text form otherwise, with NULLs last in either
/// direction.
pub open spec fn sort_term(column: Seq<char>, descending: bool, native: bool) -> Seq<char> {
    let base = if native {
        quoted_ident(column)
    } else {
        quoted_ident(column) + "::text"@
    };
    if descending {
        base + " DESC NULLS LAST"@
    } else {
        base + " ASC NULLS LAST"@
    }
}

/// The identifiers an ORDER BY list names: the sort column, if any, then the
/// primary-key columns, or every column where there is no primary key.
pub open spec fn order_idents(
    plan: Seq<ColumnModel>,
    primary_key: Seq<Seq<char>>,
    sort_column: Option<Seq<char>>,
) -> Seq<Seq<char>> {
    let keys = if primary_key.len() > 0 {
        primary_key
    } else {
        plan_names(plan)
    };
    match sort_column {
        Some(c) => seq![c] + keys,
        None => keys,
    }
}

/// The ORDER BY terms: the sort term, if any, then the primary-key columns
/// in constraint order; without a primary key, every column in table order
/// (by its text form where the SELECT list casts it), so that pages never
/// overlap or skip rows.
pub open spec fn order_terms(
    plan: Seq<ColumnModel>,
    primary_key: Seq<Seq<char>>,
    sort_column: Option<Seq<char>>,
    descending: bool,
    native: bool,
) -> Seq<Seq<char>> {
    let keys = if primary_key.len() > 0 {
        primary_key.map_values(|k: Seq<char>| quoted_ident(k))
    } else {
        plan.map_values(|c: ColumnModel| select_term(c))
    };
    match sort_column {
        Some(c) => seq![sort_term(c, descending, native)] + keys,
        None => keys,
    }
}

impl ColumnPlan {
    /// The ORDER BY list for a page of rows; see [`order_terms`].
    pub fn order_by(
        &self,
        primary_key: &Vec<String>,
        sort_column: Option<&str>,
        descending: bool,
        native_sort: bool,
    ) -> (r: Result<String, String>)
        ensures
            ({
                let idents = order_idents(
                    self@,
                    views(primary_key@),
                    match sort_column {
                        Some(c) => Some(c@),
                        None => None,
                    },
                );
                match r {
                    Ok(s) => all_quotable(idents) && s@ == join(
                        order_terms(
                            self@,
                            views(primary_key@),
                            match sort_column {
                                Some(c) => Some(c@),
                                None => None,
                            },
                            descending,
                            native_sort,
                        ),
                        ", "@,
                    ),
                    Err(e) => !all_quotable(idents) && e@ == nul_ident_error(
                        first_unquotable(idents),
                    ),
                }
            }),
    {
        proof {
            use_type_invariant(self);
        }
        let ghost sort_view = match sort_column {
            Some(c) => Some(c@),
            None => None::<Seq<char>>,
        };
        let ghost pk = views(primary_key@);
        let ghost idents_spec = order_idents(self@, pk, sort_view);
        let ghost terms_spec = order_terms(self@, pk, sort_view, descending, native_sort);
        let use_pk = primary_key.len() > 0;
        let mut idents: Vec<String> = Vec::new();
        let offset: usize = match sort_column {
            Some(c) => {
                idents.push(c.to_owned());
                1
            },
            None => 0,
        };
        let mut i: usize = 0;
        let n: usize = if use_pk {
            primary_key.len()
        } else {
            self.columns.len()
        };
        while i < n
            invariant
                i <= n,
                n == (if use_pk {
                    primary_key@.len()
                } else {
                    self.columns@.len()
                }),
                use_pk == (primary_key@.len() > 0),
                offset == (if sort_column is Some {
                    1usize
                } else {
                    0usize
                }),
                idents@.len() == offset + i,
                sort_column matches Some(c) ==> idents@[0]@ == c@,
                forall|j: int|
                    0 <= j < i ==> (#[trigger] idents@[offset + j])@ == (if use_pk {
                        primary_key@[j]@
                    } else {
                        self.columns@[j].name@
                    }),
            decreases n - i,
        {
            if use_pk {
                idents.push(primary_key[i].clone());
            } else {
                idents.push(self.columns[i].name.clone());
            }
            i = i + 1;
        }
        assert(views(idents@) =~= idents_spec) by {
            assert forall|j: int| 0 <= j < idents_spec.len() implies views(idents@)[j]
                == idents_spec[j] by {
                if offset == 1 && j == 0 {
                } else {
                    assert(idents@[offset + (j - offset)] == idents@[j]);
                }
            }
        }
        let quoted = quote_all(&idents)?;
        let mut terms: Vec<String> = Vec::new();
        let mut k: usize = 0;
        while k < quoted.len()
            invariant
                k <= quoted@.len(),
                quoted@.len() == idents@.len(),
                views(idents@) == idents_spec,
                idents@.len() == terms_spec.len(),
                forall|j: int| 0 <= j < idents@.len() ==> (#[trigger] quoted@[j])@ == quoted_ident(idents@[j]@),
                terms@.len() == k,
                forall|j: int| 0 <= j < k ==> (#[trigger] terms@[j])@ == terms_spec[j],
                offset == (if sort_column is Some {
                    1usize
                } else {
                    0usize
                }),
                use_pk == (primary_key@.len() > 0),
                idents@.len() == offset + (if use_pk {
                    primary_key@.len()
                } else {
                    self.columns@.len()
                }),
                sort_view == (match sort_column {
                    Some(c) => Some(c@),
                    None => None::<Seq<char>>,
                }),
                pk == views(primary_key@),
                terms_spec == order_terms(self@, pk, sort_view, descending, native_sort),
                idents_spec == order_idents(self@, pk, sort_view),
                forall|j: int|
                    0 <= j < self.columns@.len() ==> (#[trigger] self.columns@[j]).decoder
                        == decoder_for(self.columns@[j].ty.oid),
            decreases quoted@.len() - k,
        {
            let q = quoted[k].clone();
            let term = if k < offset {
                let mut t = q;
                if !native_sort {
                    t.append("::text");
                }
                if descending {
                    t.append(" DESC NULLS LAST");
                } else {
                    t.append(" ASC NULLS LAST");
                }
                t
            } else if !use_pk && self.columns[k - offset].decoder.needs_cast() {
                let mut t = q;
                t.append("::text");
                t
            } else {
                q
            };
            proof {
                assert(idents_spec[k as int] == views(idents@)[k as int]);
                if k >= offset {
                    let m = k - offset;
                    if use_pk {
                        assert(idents_spec[k as int] == pk[m as int]);
                    } else {
                        assert(idents_spec[k as int] == plan_names(self@)[m as int]);
                        assert(self@[m as int].oid == self.columns@[m as int].ty.oid);
                    }
                }
            }
            assert(term@ == terms_spec[k as int]);
            terms.push(term);
            k = k + 1;
        }
        assert(terms@.map_values(|p: String| p@) =~= terms_spec);
        Ok(join_comma(&terms))
    }
}

// ---------------------------------------------------------------------------
// Key predicates and key parameters
// ---------------------------------------------------------------------------

/// Types whose values bind natively as a key parameter.
pub open spec fn is_bindable(oid: u32) -> bool {
    oid == BOOL_OID || oid == INT2_OID || oid == INT4_OID || oid == INT8_OID || oid == FLOAT4_OID
        || oid == FLOAT8_OID || is_text_type(oid) || oid == UUID_OID
}

/// How a key column is compared against a bound parameter.
///
/// PostgreSQL infers the type of `$1` from the comparison, so the parameter
/// type comes from the column, never from the shape of the incoming value.
#[derive(Clone, Debug, PartialEq, Eq)]
pub enum KeyPredicate {
    /// Bind a parameter of the column's own type. Uses the index.
    Typed(PgType),
    /// Compare the column's text form. Correct for any type, but it cannot
    /// use the index, so it is kept for types that do not bind natively.
    AsText,
}

/// The model of a [`KeyPredicate`].
pub ghost enum PredicateModel {
    Typed(u32, Seq<char>),
    AsText,
}

impl View for KeyPredicate {
    type V = PredicateModel;

    open spec fn view(&self) -> PredicateModel {
        match self {
            KeyPredicate::Typed(ty) => PredicateModel::Typed(ty.oid, ty.name@),
            KeyPredicate::AsText => PredicateModel::AsText,
        }
    }
}

/// The predicate for a column of the given type.
pub open spec fn predicate_for(oid: u32, ty_name: Seq<char>) -> PredicateModel {
    if is_bindable(oid) {
        PredicateModel::Typed(oid, ty_name)
    } else {
        PredicateModel::AsText
    }
}

/// The left-hand side of the `= $1` comparison.
pub open spec fn predicate_lhs(p: PredicateModel, quoted: Seq<char>) -> Seq<char> {
    match p {
        PredicateModel::Typed(_, _) => quoted,
        PredicateModel::AsText => quoted + "::text"@,
    }
}

impl KeyPredicate {
    /// The predicate for a column of type `ty`.
    pub fn for_type(ty: &PgType) -> (p: KeyPredicate)
        ensures
            p@ == predicate_for(ty.oid, ty.name@),
    {
        let oid = ty.oid;
        if oid == BOOL_OID || oid == INT2_OID || oid == INT4_OID || oid == INT8_OID || oid
            == FLOAT4_OID || oid == FLOAT8_OID || oid == TEXT_OID || oid == VARCHAR_OID || oid
            == BPCHAR_OID || oid == NAME_OID || oid == UUID_OID {
            KeyPredicate::Typed(ty.copy())
        } else {
            KeyPredicate::AsText
        }
    }

    /// The left-hand side of the `= $1` comparison.
    pub fn lhs(&self, quoted_ident: &str) -> (r: String)
        ensures
            r@ == predicate_lhs(self@, quoted_ident@),
    {
        match self {
            KeyPredicate::Typed(_) => quoted_ident.to_owned(),
            KeyPredicate::AsText => {
                let mut r = quoted_ident.to_owned();
                r.append("::text");
                r
            },
        }
    }
}

/// Where a floating-point key comes from: a JSON number, or the trimmed text
/// of a string that `str::parse::<f64>` accepts.
#[derive(Clone, Debug, PartialEq, Eq)]
pub enum FloatKey {
    Number(JsonNumber),
    Text(String),
}

/// A key value typed for its column, ready to be bound as `$1`.
#[derive(Clone, Debug, PartialEq, Eq)]
pub enum BoundKey {
    Bool(bool),
    Int2(i16),
    Int4(i32),
    Int8(i64),
    Float4(FloatKey),
    Float8(FloatKey),
    Uuid(u128),
    Text(String),
}

/// The model of a [`FloatKey`].
pub ghost enum FloatModel {
    Number(NumberModel),
    Text(Seq<char>),
}

/// The model of a [`BoundKey`].
pub ghost enum BoundModel {
    Bool(bool),
    Int2(int),
    Int4(int),
    Int8(int),
    Float4(FloatModel),
    Float8(FloatModel),
    Uuid(u128),
    Text(Seq<char>),
}

impl View for FloatKey {
    type V = FloatModel;

    open spec fn view(&self) -> FloatModel {
        match self {
            FloatKey::Number(n) => FloatModel::Number(n@),
            FloatKey::Text(t) => FloatModel::Text(t@),
        }
    }
}

impl View for BoundKey {
    type V = BoundModel;

    open spec fn view(&self) -> BoundModel {
        match self {
            BoundKey::Bool(b) => BoundModel::Bool(*b),
            BoundKey::Int2(n) => BoundModel::Int2(*n as int),
            BoundKey::Int4(n) => BoundModel::Int4(*n as int),
            BoundKey::Int8(n) => BoundModel::Int8(*n as int),
            BoundKey::Float4(f) => BoundModel::Float4(f@),
            BoundKey::Float8(f) => BoundModel::Float8(f@),
            BoundKey::Uuid(u) => BoundModel::Uuid(*u),
            BoundKey::Text(s) => BoundModel::Text(s@),
        }
    }
}

/// The UUID the `uuid` crate reads from `text`, as its 128-bit value.
pub uninterp spec fn uuid_from_text(text: Seq<char>) -> Option<u128>;

/// `text.parse::<uuid::Uuid>()`, as the UUID's 128-bit value.
#[verifier::external_body]
fn parse_uuid(text: &str) -> (r: Option<u128>)
    ensures
        r == uuid_from_text(text@),
{
    text.parse::<uuid::Uuid>().ok().map(|u| u.as_u128())
}

/// An integer key of the range `min..=max`: a JSON number that is a whole
/// `i64`, or a string that parses as one once trimmed. Out-of-range values
/// are reported, never wrapped.
pub open spec fn int_key(v: JsonModel, min: int, max: int) -> Result<int, Seq<char>> {
    let parsed: Result<int, Seq<char>> = match v {
        JsonModel::Number(n) => match number_as_i64(n) {
            Some(i) => Ok(i),
            None => Err("Key value "@ + number_text(n) + " is not a whole number"@),
        },
        JsonModel::String(s) => match parse_signed(trim(s), i64::MIN as int, i64::MAX as int) {
            Some(i) => Ok(i),
            None => Err("Key value "@ + debug_text(s) + " is not a whole number"@),
        },
        _ => Err("Expected an integer key value, got "@ + json_text(v)),
    };
    match parsed {
        Ok(n) => if n < min || n > max {
            Err("Key value "@ + signed_decimal(n) + " is out of range for this column"@)
        } else {
            Ok(n)
        },
        Err(e) => Err(e),
    }
}

/// A boolean key: a JSON boolean, or the strings `true`/`t` and `false`/`f`
/// (the server's text form) once trimmed.
pub open spec fn bool_key(v: JsonModel) -> Result<bool, Seq<char>> {
    match v {
        JsonModel::Bool(b) => Ok(b),
        JsonModel::String(s) => if trim(s) == "true"@ || trim(s) == "t"@ {
            Ok(true)
        } else if trim(s) == "false"@ || trim(s) == "f"@ {
            Ok(false)
        } else {
            Err("Key value "@ + debug_text(s) + " is not a boolean"@)
        },
        _ => Err("Expected a boolean key value, got "@ + json_text(v)),
    }
}

/// A UUID key: a string the `uuid` crate reads as a UUID once trimmed.
pub open spec fn uuid_key(v: JsonModel) -> Result<u128, Seq<char>> {
    match v {
        JsonModel::String(s) => match uuid_from_text(trim(s)) {
            Some(u) => Ok(u),
            None => Err("Key value "@ + debug_text(s) + " is not a UUID"@),
        },
        _ => Err("Expected a UUID key value, got "@ + json_text(v)),
    }
}

/// A text key: a string, exactly as it arrived.
pub open spec fn string_key(v: JsonModel) -> Result<Seq<char>, Seq<char>> {
    match v {
        JsonModel::String(s) => Ok(s),
        _ => Err("Expected a text key value, got "@ + json_text(v)),
    }
}

/// A floating-point key: a JSON number, or a string that reads as a float
/// once trimmed (see [`float_syntax`]).
pub open spec fn float_key(v: JsonModel) -> Result<FloatModel, Seq<char>> {
    match v {
        JsonModel::Number(n) => Ok(FloatModel::Number(n)),
        JsonModel::String(s) => if float_syntax(trim(s)) {
            Ok(FloatModel::Text(trim(s)))
        } else {
            Err("Key value "@ + debug_text(s) + " is not a number"@)
        },
        _ => Err("Expected a numeric key value, got "@ + json_text(v)),
    }
}

/// The `::text` comparison path: a string verbatim, anything else by its
/// JSON text.
pub open spec fn text_of_key(v: JsonModel) -> Seq<char> {
    match v {
        JsonModel::String(s) => s,
        _ => json_text(v),
    }
}

/// What binding `v` for a column compared by `p` gives.
pub open spec fn bind_spec(v: JsonModel, p: PredicateModel) -> Result<BoundModel, Seq<char>> {
    if v is Null {
        Err("Key value cannot be null"@)
    } else {
        match p {
            PredicateModel::AsText => Ok(BoundModel::Text(text_of_key(v))),
            PredicateModel::Typed(oid, name) => if oid == BOOL_OID {
                match bool_key(v) {
                    Ok(b) => Ok(BoundModel::Bool(b)),
                    Err(e) => Err(e),
                }
            } else if oid == INT2_OID {
                match int_key(v, i16::MIN as int, i16::MAX as int) {
                    Ok(n) => Ok(BoundModel::Int2(n)),
                    Err(e) => Err(e),
                }
            } else if oid == INT4_OID {
                match int_key(v, i32::MIN as int, i32::MAX as int) {
                    Ok(n) => Ok(BoundModel::Int4(n)),
                    Err(e) => Err(e),
                }
            } else if oid == INT8_OID {
                match int_key(v, i64::MIN as int, i64::MAX as int) {
                    Ok(n) => Ok(BoundModel::Int8(n)),
                    Err(e) => Err(e),
                }
            } else if oid == FLOAT4_OID {
                match float_key(v) {
                    Ok(f) => Ok(BoundModel::Float4(f)),
                    Err(e) => Err(e),
                }
            } else if oid == FLOAT8_OID {
                match float_key(v) {
                    Ok(f) => Ok(BoundModel::Float8(f)),
                    Err(e) => Err(e),
                }
            } else if oid == UUID_OID {
                match uuid_key(v) {
                    Ok(u) => Ok(BoundModel::Uuid(u)),
                    Err(e) => Err(e),
                }
            } else if is_text_type(oid) {
                match string_key(v) {
                    Ok(s) => Ok(BoundModel::Text(s)),
                    Err(e) => Err(e),
                }
            } else {
                Err("Cannot bind a "@ + name + " key value"@)
            },
        }
    }
}

fn message2(a: &str, b: &str) -> (r: String)
    ensures
        r@ == a@ + b@,
{
    let mut r = a.to_owned();
    r.append(b);
    r
}

fn message3(a: &str, b: &str, c: &str) -> (r: String)
    ensures
        r@ == a@ + b@ + c@,
{
    let mut r = a.to_owned();
    r.append(b);
    r.append(c);
    r
}

fn as_int(value: &JsonValue, min: i64, max: i64) -> (r: Result<i64, String>)
    requires
        !(value@ is Null),
    ensures
        match r {
            Ok(n) => int_key(value@, min as int, max as int) == Ok::<int, Seq<char>>(n as int),
            Err(e) => int_key(value@, min as int, max as int) == Err::<int, Seq<char>>(e@),
        },
{
    let n: i64 = match value {
        JsonValue::Number(num) => match num.as_i64() {
            Some(i) => i,
            None => {
                let t = num.to_text();
                return Err(message3("Key value ", t.as_str(), " is not a whole number"));
            },
        },
        JsonValue::String(s) => {
            let v = chars_of(s.as_str());
            let t = trim_chars(&v);
            match parse_i64(&t) {
                Some(i) => i,
                None => {
                    let d = debug_quoted(s.as_str());
                    return Err(message3("Key value ", d.as_str(), " is not a whole number"));
                },
            }
        },
        _ => {
            let t = value.to_json_text();
            return Err(message2("Expected an integer key value, got ", t.as_str()));
        },
    };
    if n < min || n > max {
        let t = i64_text(n);
        return Err(message3("Key value ", t.as_str(), " is out of range for this column"));
    }
    Ok(n)
}

fn as_bool(value: &JsonValue) -> (r: Result<bool, String>)
    ensures
        match r {
            Ok(b) => bool_key(value@) == Ok::<bool, Seq<char>>(b),
            Err(e) => bool_key(value@) == Err::<bool, Seq<char>>(e@),
        },
{
    match value {
        JsonValue::Bool(b) => Ok(*b),
        JsonValue::String(s) => {
            let t = trim_str(s.as_str());
            if str_eq(t.as_str(), "true") || str_eq(t.as_str(), "t") {
                Ok(true)
            } else if str_eq(t.as_str(), "false") || str_eq(t.as_str(), "f") {
                Ok(false)
            } else {
                let d = debug_quoted(s.as_str());
                Err(message3("Key value ", d.as_str(), " is not a boolean"))
            }
        },
        _ => {
            let t = value.to_json_text();
            Err(message2("Expected a boolean key value, got ", t.as_str()))
        },
    }
}

/// A UUID key from what the `uuid` crate read of the trimmed text: the
/// UUID, or `Key value {original:?} is not a UUID` where it read none.
pub fn uuid_from_parsed(parsed: Option<u128>, original: &str) -> (r: Result<u128, String>)
    ensures
        match parsed {
            Some(u) => r == Ok::<u128, String>(u),
            None => r matches Err(e) && e@ == "Key value "@ + debug_text(original@) + " is not a UUID"@,
        },
{
    match parsed {
        Some(u) => Ok(u),
        None => {
            let d = debug_quoted(original);
            Err(message3("Key value ", d.as_str(), " is not a UUID"))
        },
    }
}

fn as_uuid(value: &JsonValue) -> (r: Result<u128, String>)
    ensures
        match r {
            Ok(u) => uuid_key(value@) == Ok::<u128, Seq<char>>(u),
            Err(e) => uuid_key(value@) == Err::<u128, Seq<char>>(e@),
        },
{
    match value {
        JsonValue::String(s) => {
            let t = trim_str(s.as_str());
            uuid_from_parsed(parse_uuid(t.as_str()), s.as_str())
        },
        _ => {
            let t = value.to_json_text();
            Err(message2("Expected a UUID key value, got ", t.as_str()))
        },
    }
}

fn as_string(value: &JsonValue) -> (r: Result<String, String>)
    ensures
        match r {
            Ok(s) => string_key(value@) == Ok::<Seq<char>, Seq<char>>(s@),
            Err(e) => string_key(value@) == Err::<Seq<char>, Seq<char>>(e@),
        },
{
    match value {
        JsonValue::String(s) => Ok(s.clone()),
        _ => {
            let t = value.to_json_text();
            Err(message2("Expected a text key value, got ", t.as_str()))
        },
    }
}

fn as_float(value: &JsonValue) -> (r: Result<FloatKey, String>)
    ensures
        match r {
            Ok(f) => float_key(value@) == Ok::<FloatModel, Seq<char>>(f@),
            Err(e) => float_key(value@) == Err::<FloatModel, Seq<char>>(e@),
        },
{
    match value {
        JsonValue::Number(n) => Ok(
            FloatKey::Number(
                match n {
                    JsonNumber::PosInt(v) => JsonNumber::PosInt(*v),
                    JsonNumber::NegInt(v) => JsonNumber::NegInt(*v),
                    JsonNumber::Float(t) => JsonNumber::Float(t.clone()),
                },
            ),
        ),
        JsonValue::String(s) => {
            let t = trim_str(s.as_str());
            if is_float_text(t.as_str()) {
                Ok(FloatKey::Text(t))
            } else {
                let d = debug_quoted(s.as_str());
                Err(message3("Key value ", d.as_str(), " is not a number"))
            }
        },
        _ => {
            let t = value.to_json_text();
            Err(message2("Expected a numeric key value, got ", t.as_str()))
        },
    }
}

/// The `::text` comparison path: whatever the read side rendered, verbatim.
fn as_text(value: &JsonValue) -> (r: String)
    ensures
        r@ == text_of_key(value@),
{
    match value {
        JsonValue::String(s) => s.clone(),
        _ => value.to_json_text(),
    }
}

/// Turns a JSON key value from the user interface into a parameter the
/// column accepts. The parameter's type comes from the predicate, that is
/// from the column; a null key, a value of the wrong shape, and an integer
/// out of the column's range are each refused with a message.
pub fn bind_key(value: &JsonValue, predicate: &KeyPredicate) -> (r: Result<BoundKey, String>)
    ensures
        match r {
            Ok(k) => bind_spec(value@, predicate@) == Ok::<BoundModel, Seq<char>>(k@),
            Err(e) => bind_spec(value@, predicate@) == Err::<BoundModel, Seq<char>>(e@),
        },
{
    if value.is_null() {
        let mut e = String::new();
        e.append("Key value cannot be null");
        return Err(e);
    }
    let ty = match predicate {
        KeyPredicate::AsText => {
            return Ok(BoundKey::Text(as_text(value)));
        },
        KeyPredicate::Typed(ty) => ty,
    };
    let oid = ty.oid;
    if oid == BOOL_OID {
        Ok(BoundKey::Bool(as_bool(value)?))
    } else if oid == INT2_OID {
        let n = as_int(value, i16::MIN as i64, i16::MAX as i64)?;
        Ok(BoundKey::Int2(n as i16))
    } else if oid == INT4_OID {
        let n = as_int(value, i32::MIN as i64, i32::MAX as i64)?;
        Ok(BoundKey::Int4(n as i32))
    } else if oid == INT8_OID {
        Ok(BoundKey::Int8(as_int(value, i64::MIN, i64::MAX)?))
    } else if oid == FLOAT4_OID {
        Ok(BoundKey::Float4(as_float(value)?))
    } else if oid == FLOAT8_OID {
        Ok(BoundKey::Float8(as_float(value)?))
    } else if oid == UUID_OID {
        Ok(BoundKey::Uuid(as_uuid(value)?))
    } else if oid == TEXT_OID || oid == VARCHAR_OID || oid == BPCHAR_OID || oid == NAME_OID {
        Ok(BoundKey::Text(as_string(value)?))
    } else {
        Err(message3("Cannot bind a ", ty.name.as_str(), " key value"))
    }
}

// ---------------------------------------------------------------------------
// Cells
// ---------------------------------------------------------------------------

/// What reading one cell of a row gave: a SQL `NULL`, a value of the kind the
/// column's decoder reads, or the driver's error.
#[derive(Clone, Debug, PartialEq, Eq)]
pub enum CellRead {
    Null,
    Bool(bool),
    Int(i64),
    /// A float by its shortest decimal text (`Display`), and whether it is
    /// finite.
    Float { text: String, finite: bool },
    Text(String),
    Failed(String),
}

/// The model of a [`CellRead`].
pub ghost enum CellModel {
    Null,
    Bool(bool),
    Int(int),
    Float(Seq<char>, bool),
    Text(Seq<char>),
    Failed(Seq<char>),
}

impl View for CellRead {
    type V = CellModel;

    open spec fn view(&self) -> CellModel {
        match self {
            CellRead::Null => CellModel::Null,
            CellRead::Bool(b) => CellModel::Bool(*b),
            CellRead::Int(n) => CellModel::Int(*n as int),
            CellRead::Float { text, finite } => CellModel::Float(text@, *finite),
            CellRead::Text(s) => CellModel::Text(s@),
            CellRead::Failed(e) => CellModel::Failed(e@),
        }
    }
}

/// The JSON form of an integer.
pub open spec fn int_number(n: int) -> NumberModel {
    if n >= 0 {
        NumberModel::PosInt(n as nat)
    } else {
        NumberModel::NegInt(n)
    }
}

/// The JSON value of a float: the number its text reads as when it is
/// finite, its text as a string otherwise (`NaN`, `inf` and `-inf` are not
/// JSON numbers, and are not to collapse into null).
pub open spec fn float_value(text: Seq<char>, finite: bool) -> JsonModel {
    if finite {
        match json_number_from_text(text) {
            Some(n) => JsonModel::Number(n),
            None => JsonModel::String(text),
        }
    } else {
        JsonModel::String(text)
    }
}

/// The JSON value of a cell. Only a real SQL `NULL` becomes `null`; a read
/// that failed shows as a visible marker rather than vanishing.
pub open spec fn cell_value(c: CellModel) -> JsonModel {
    match c {
        CellModel::Null => JsonModel::Null,
        CellModel::Bool(b) => JsonModel::Bool(b),
        CellModel::Int(n) => JsonModel::Number(int_number(n)),
        CellModel::Float(text, finite) => float_value(text, finite),
        CellModel::Text(s) => JsonModel::String(s),
        CellModel::Failed(e) => JsonModel::String("<unreadable: "@ + e + ">"@),
    }
}

/// The JSON value of a float given by its text and the number `serde_json`
/// read from that text, if any: the number where the float is finite and
/// the text read as one, the text as a string otherwise.
pub fn float_from_parsed(text: &str, finite: bool, parsed: Option<JsonNumber>) -> (r: JsonValue)
    ensures
        r@ == match parsed {
            Some(n) => if finite {
                JsonModel::Number(n@)
            } else {
                JsonModel::String(text@)
            },
            None => JsonModel::String(text@),
        },
{
    match parsed {
        Some(n) => if finite {
            JsonValue::Number(n)
        } else {
            JsonValue::String(text.to_owned())
        },
        None => JsonValue::String(text.to_owned()),
    }
}

/// The JSON value of a float given by its text: see [`float_value`].
pub fn float_to_json(text: &str, finite: bool) -> (r: JsonValue)
    ensures
        r@ == float_value(text@, finite),
{
    let parsed = if finite {
        parse_json_number(text)
    } else {
        None
    };
    float_from_parsed(text, finite, parsed)
}

/// The JSON value of one cell.
pub fn decode_cell(read: &CellRead) -> (r: JsonValue)
    ensures
        r@ == cell_value(read@),
{
    match read {
        CellRead::Null => JsonValue::Null,
        CellRead::Bool(b) => JsonValue::Bool(*b),
        CellRead::Int(n) => JsonValue::Number(JsonNumber::from_i64(*n)),
        CellRead::Float { text, finite } => float_to_json(text.as_str(), *finite),
        CellRead::Text(s) => JsonValue::String(s.clone()),
        CellRead::Failed(e) => JsonValue::String(message3("<unreadable: ", e.as_str(), ">")),
    }
}

/// The JSON values of one row, cell by cell, in column order.
pub fn decode_row(reads: &Vec<CellRead>) -> (r: Vec<JsonValue>)
    ensures
        r@.len() == reads@.len(),
        forall|i: int| 0 <= i < reads@.len() ==> (#[trigger] r@[i])@ == cell_value(reads@[i]@),
{
    let mut r: Vec<JsonValue> = Vec::new();
    let mut i: usize = 0;
    while i < reads.len()
        invariant
            i <= reads@.len(),
            r@.len() == i,
            forall|j: int| 0 <= j < i ==> (#[trigger] r@[j])@ == cell_value(reads@[j]@),
        decreases reads@.len() - i,
    {
        r.push(decode_cell(&reads[i]));
        i = i + 1;
    }
    r
}

/// No value silently renders as null: a cell becomes `null` exactly when
/// it holds SQL `NULL`.
pub proof fn law_only_null_is_null(c: CellModel)
    ensures
        (cell_value(c) is Null) <==> (c is Null),
{
}

/// Decoding carries every value over as it was read: a boolean stays that
/// boolean, an integer becomes the JSON number with its value, text stays
/// that text, a float that is not finite stays its text, a finite float
/// becomes the number `serde_json` reads from its text, and a failed read
/// shows its error inside an `<unreadable: ...>` marker.
pub proof fn law_cells_keep_their_values(c: CellModel)
    ensures
        c matches CellModel::Bool(b) ==> cell_value(c) == JsonModel::Bool(b),
        c matches CellModel::Int(n) ==> (i64::MIN <= n <= i64::MAX ==> (cell_value(
            c,
        ) matches JsonModel::Number(m) && number_as_i64(m) == Some(n))),
        c matches CellModel::Text(t) ==> cell_value(c) == JsonModel::String(t),
        c matches CellModel::Float(t, finite) ==> (!finite ==> cell_value(c) == JsonModel::String(t)),
        c matches CellModel::Float(t, finite) ==> (finite ==> match json_number_from_text(t) {
            Some(m) => cell_value(c) == JsonModel::Number(m),
            None => cell_value(c) == JsonModel::String(t),
        }),
        c matches CellModel::Failed(e) ==> cell_value(c) == JsonModel::String(
            "<unreadable: "@ + e + ">"@,
        ),
{
}

/// A boolean key binds to the boolean it denotes: a JSON boolean to itself,
/// and a string that trims to `true` or `t` to true, one that trims to
/// `false` or `f` to false; any other string is refused.
pub proof fn law_bool_keys_bind_their_meaning(s: Seq<char>, b: bool, name: Seq<char>)
    ensures
        bind_spec(JsonModel::Bool(b), PredicateModel::Typed(BOOL_OID, name)) == Ok::<
            BoundModel,
            Seq<char>,
        >(BoundModel::Bool(b)),
        trim(s) == "true"@ || trim(s) == "t"@ ==> bind_spec(
            JsonModel::String(s),
            PredicateModel::Typed(BOOL_OID, name),
        ) == Ok::<BoundModel, Seq<char>>(BoundModel::Bool(true)),
        trim(s) == "false"@ || trim(s) == "f"@ ==> bind_spec(
            JsonModel::String(s),
            PredicateModel::Typed(BOOL_OID, name),
        ) == Ok::<BoundModel, Seq<char>>(BoundModel::Bool(false)),
        !(trim(s) == "true"@ || trim(s) == "t"@ || trim(s) == "false"@ || trim(s) == "f"@)
            ==> bind_spec(JsonModel::String(s), PredicateModel::Typed(BOOL_OID, name)) is Err,
{
    reveal_strlit("true");
    reveal_strlit("t");
    reveal_strlit("false");
    reveal_strlit("f");
    assert("false"@ != "true"@ && "false"@ != "t"@ && "f"@ != "true"@ && "f"@ != "t"@) by {
        assert("false"@.len() != "true"@.len());
        assert("false"@[0] != "t"@[0]);
        assert("f"@.len() != "true"@.len());
        assert("f"@[0] != "t"@[0]);
    }
}

} // verus!

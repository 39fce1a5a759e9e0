use vstd::prelude::*;

use crate::error::{ErrorModel, QueryError};
use crate::text::chars_of;

verus! {

/// The declared type of a column.
#[derive(Clone, Copy, Debug, PartialEq, Eq, Structural)]
pub enum ColType {
    Text,
    Int,
    Float,
    Bool,
}

/// The name under which a type is declared in a header.
pub open spec fn declared_name(t: ColType) -> Seq<char> {
    match t {
        ColType::Text => "string"@,
        ColType::Int => "int"@,
        ColType::Float => "float"@,
        ColType::Bool => "bool"@,
    }
}

/// The type declared as `name`, if the registry has one.
pub open spec fn declared_named(name: Seq<char>) -> Option<ColType> {
    if name == "string"@ {
        Some(ColType::Text)
    } else if name == "int"@ {
        Some(ColType::Int)
    } else if name == "float"@ {
        Some(ColType::Float)
    } else if name == "bool"@ {
        Some(ColType::Bool)
    } else {
        None
    }
}

impl ColType {
    /// The name under which this type is declared.
    pub fn name(&self) -> (r: String)
        ensures
            r@ == declared_name(*self),
    {
        match self {
            ColType::Text => "string".to_owned(),
            ColType::Int => "int".to_owned(),
            ColType::Float => "float".to_owned(),
            ColType::Bool => "bool".to_owned(),
        }
    }

    /// Looks a type up by its declared name.
    pub fn find(name: &String) -> (r: Result<ColType, QueryError>)
        ensures
            match declared_named(name@) {
                Some(t) => r == Ok::<ColType, QueryError>(t),
                None => r matches Err(e) && e@ == ErrorModel::UnknownType(name@),
            },
    {
        if *name == "string".to_owned() {
            Ok(ColType::Text)
        } else if *name == "int".to_owned() {
            Ok(ColType::Int)
        } else if *name == "float".to_owned() {
            Ok(ColType::Float)
        } else if *name == "bool".to_owned() {
            Ok(ColType::Bool)
        } else {
            Err(QueryError::UnknownType(name.clone()))
        }
    }
}

/// Whether `regex_syntax::try_is_word_character` accepts `c`: the characters
/// that `\w` matches in a regular expression.
pub uninterp spec fn is_word(c: char) -> bool;

/// Relies on `regex_syntax::try_is_word_character` (an error, when its
/// tables are not built in, reads as `false`). Brackets are punctuation,
/// outside its table.
#[verifier::external_body]
fn word_char(c: char) -> (r: bool)
    ensures
        r == is_word(c),
        c == '[' || c == ']' ==> !r,
{
    regex_syntax::try_is_word_character(c).unwrap_or(false)
}

pub open spec fn all_word(s: Seq<char>) -> bool {
    forall|i: int| 0 <= i < s.len() ==> is_word(#[trigger] s[i])
}

/// `s` reads `name[ty]`, with `name` and `ty` non-empty runs of word characters.
/// (No word character is a bracket: the clause on `name` only says so.)
pub open spec fn is_column_spec(s: Seq<char>, name: Seq<char>, ty: Seq<char>) -> bool {
    &&& forall|i: int| 0 <= i < name.len() ==> name[i] != '['
    &&& name.len() > 0
    &&& ty.len() > 0
    &&& all_word(name)
    &&& all_word(ty)
    &&& s == name + seq!['['] + ty + seq![']']
}

/// A header entry of the shape `name[ty]` names a single pair.
proof fn lemma_column_spec_unique(s: Seq<char>, n1: Seq<char>, t1: Seq<char>, n2: Seq<char>, t2: Seq<char>)
    requires
        is_column_spec(s, n1, t1),
        is_column_spec(s, n2, t2),
    ensures
        n1 == n2,
        t1 == t2,
{
    assert(s[n1.len() as int] == '[');
    assert(s[n2.len() as int] == '[');
    if n1.len() < n2.len() {
        assert(s[n1.len() as int] == n2[n1.len() as int]);
    } else if n2.len() < n1.len() {
        assert(s[n2.len() as int] == n1[n2.len() as int]);
    }
    assert(n1 =~= s.take(n1.len() as int));
    assert(n2 =~= s.take(n2.len() as int));
    assert(t1 =~= s.subrange(n1.len() + 1int, s.len() - 1int));
    assert(t2 =~= s.subrange(n2.len() + 1int, s.len() - 1int));
}

/// The column that a header entry declares, or why it declares none.
pub open spec fn column_of(s: Seq<char>) -> Result<(Seq<char>, ColType), ErrorModel> {
    if exists|n: Seq<char>, t: Seq<char>| is_column_spec(s, n, t) {
        let (n, t) = choose|n: Seq<char>, t: Seq<char>| is_column_spec(s, n, t);
        match declared_named(t) {
            Some(ct) => Ok((n, ct)),
            None => Err(ErrorModel::UnknownType(t)),
        }
    } else {
        Err(ErrorModel::MalformedColumn(s))
    }
}

/// The columns that a header declares, or the error of its first bad entry.
pub open spec fn header_columns(h: Seq<Seq<char>>) -> Result<Seq<(Seq<char>, ColType)>, ErrorModel>
    decreases h.len(),
{
    if h.len() == 0 {
        Ok(Seq::empty())
    } else {
        match header_columns(h.drop_last()) {
            Err(e) => Err(e),
            Ok(cs) => match column_of(h.last()) {
                Ok(c) => Ok(cs.push(c)),
                Err(e) => Err(e),
            },
        }
    }
}

/// Splits `name[ty]` into its two parts.
fn split_column_spec(s: &String) -> (r: Option<(String, String)>)
    ensures
        match r {
            Some((n, t)) => is_column_spec(s@, n@, t@),
            None => forall|n: Seq<char>, t: Seq<char>| !is_column_spec(s@, n, t),
        },
{
    let chars = chars_of(s.as_str());
    let len = chars.len();
    let mut name = String::new();
    let mut k: usize = 0;
    while k < len && chars[k] != '['
        invariant
            chars@ == s@,
            len == chars.len(),
            k <= len,
            name@ == s@.take(k as int),
            forall|i: int| 0 <= i < k ==> s@[i] != '[',
        decreases len - k,
    {
        crate::text::push_char(&mut name, chars[k]);
        k = k + 1;
        assert(name@ =~= s@.take(k as int));
    }
    // k is the first '[' (or the end): any split must put it there.
    assert forall|n: Seq<char>, t: Seq<char>| is_column_spec(s@, n, t) implies n.len() == k by {
        assert(s@[n.len() as int] == '[');
        if (k as int) < (n.len() as int) {
            assert(s@[k as int] == n[k as int]);
        }
    }
    if k == 0 || len - k < 2 || chars[len - 1] != ']' {
        assert forall|n: Seq<char>, t: Seq<char>| !is_column_spec(s@, n, t) by {
            if is_column_spec(s@, n, t) {
                assert(s@[s@.len() - 1] == ']');
            }
        }
        return None;
    }
    let mut ty = String::new();
    let mut j: usize = k + 1;
    while j < len - 1
        invariant
            chars@ == s@,
            len == chars.len(),
            k + 1 <= j <= len - 1,
            ty@ == s@.subrange(k + 1, j as int),
        decreases len - 1 - j,
    {
        crate::text::push_char(&mut ty, chars[j]);
        j = j + 1;
        assert(ty@ =~= s@.subrange(k + 1, j as int));
    }
    let mut ok = k + 2 < len;
    let mut i: usize = 0;
    while i < len
        invariant
            chars@ == s@,
            len == chars.len(),
            0 < k,
            k + 2 <= len,
            i <= len,
            ok ==> k + 2 < len,
            ok ==> forall|x: int| 0 <= x < i && x != k && x != len - 1 ==> is_word(#[trigger] s@[x]),
            !ok ==> (k + 2 == len || exists|x: int| 0 <= x < i && x != k && x != len - 1 && !is_word(#[trigger] s@[x])),
        decreases len - i,
    {
        if i != k && i != len - 1 && !word_char(chars[i]) {
            ok = false;
        }
        i = i + 1;
    }
    assert(s@ =~= name@ + seq!['['] + ty@ + seq![']']);
    if ok {
        assert forall|x: int| 0 <= x < name@.len() implies is_word(#[trigger] name@[x]) by {
            assert(name@[x] == s@[x]);
        }
        assert forall|x: int| 0 <= x < ty@.len() implies is_word(#[trigger] ty@[x]) by {
            assert(ty@[x] == s@[k + 1 + x]);
        }
        Some((name, ty))
    } else {
        assert forall|n: Seq<char>, t: Seq<char>| !is_column_spec(s@, n, t) by {
            if is_column_spec(s@, n, t) {
                assert(n.len() == k);
                if k + 2 < len {
                    let x = choose|x: int|
                        0 <= x < len && x != k && x != len - 1 && !is_word(#[trigger] s@[x]);
                    if x < k {
                        assert(s@[x] == n[x]);
                    } else {
                        assert(s@[x] == t[x - k - 1]);
                    }
                }
            }
        }
        None
    }
}

/// A named, typed column of a schema.
pub struct ColItem {
    pub name: String,
    pub col_type: ColType,
}

impl View for ColItem {
    type V = (Seq<char>, ColType);

    open spec fn view(&self) -> (Seq<char>, ColType) {
        (self.name@, self.col_type)
    }
}

impl ColItem {
    /// Reads one header entry, `name[type]`.
    fn parse(s: &String) -> (r: Result<ColItem, QueryError>)
        ensures
            match r {
                Ok(c) => column_of(s@) == Ok::<(Seq<char>, ColType), ErrorModel>(c@),
                Err(e) => column_of(s@) == Err::<(Seq<char>, ColType), ErrorModel>(e@),
            },
    {
        match split_column_spec(s) {
            Some((colname, coltype)) => {
                proof {
                    let (n, t) = choose|n: Seq<char>, t: Seq<char>| is_column_spec(s@, n, t);
                    lemma_column_spec_unique(s@, n, t, colname@, coltype@);
                }
                let col_type = ColType::find(&coltype)?;
                Ok(ColItem { name: colname, col_type })
            },
            None => Err(QueryError::MalformedColumn(s.clone())),
        }
    }
}

/// The first index at which `cols` has a column called `name`.
pub open spec fn is_first_col(cols: Seq<(Seq<char>, ColType)>, name: Seq<char>, i: int) -> bool {
    &&& 0 <= i < cols.len()
    &&& cols[i].0 == name
    &&& forall|j: int| 0 <= j < i ==> cols[j].0 != name
}

/// The index of the first column called `name`, if any.
pub open spec fn col_index(cols: Seq<(Seq<char>, ColType)>, name: Seq<char>) -> Option<int> {
    if exists|i: int| is_first_col(cols, name, i) {
        Some(choose|i: int| is_first_col(cols, name, i))
    } else {
        None
    }
}

/// Once a prefix of a header fails, the whole header fails the same way.
proof fn lemma_header_error_stays(h: Seq<Seq<char>>, k: int, e: ErrorModel)
    requires
        0 < k <= h.len(),
        header_columns(h.take(k)) == Err::<Seq<(Seq<char>, ColType)>, ErrorModel>(e),
    ensures
        header_columns(h) == Err::<Seq<(Seq<char>, ColType)>, ErrorModel>(e),
    decreases h.len(),
{
    if k == h.len() {
        assert(h.take(k) =~= h);
    } else {
        assert(h.drop_last().take(k) =~= h.take(k));
        lemma_header_error_stays(h.drop_last(), k, e);
    }
}

/// The ordered, named and typed columns of a data set.
pub struct Schema(Vec<ColItem>);

impl View for Schema {
    type V = Seq<(Seq<char>, ColType)>;

    closed spec fn view(&self) -> Seq<(Seq<char>, ColType)> {
        self.0@.map_values(|c: ColItem| c@)
    }
}

impl Schema {
    /// Builds a schema from header entries `name[type]`.
    pub fn from_header(header: &Vec<String>) -> (r: Result<Schema, QueryError>)
        ensures
            match r {
                Ok(s) => header_columns(header@.map_values(|h: String| h@)) == Ok::<
                    Seq<(Seq<char>, ColType)>,
                    ErrorModel,
                >(s@),
                Err(e) => header_columns(header@.map_values(|h: String| h@)) == Err::<
                    Seq<(Seq<char>, ColType)>,
                    ErrorModel,
                >(e@),
            },
    {
        let ghost h = header@.map_values(|h: String| h@);
        let mut items: Vec<ColItem> = Vec::new();
        let mut i: usize = 0;
        assert(h.take(0) =~= Seq::<Seq<char>>::empty());
        assert(items@.map_values(|c: ColItem| c@) =~= Seq::<(Seq<char>, ColType)>::empty());
        while i < header.len()
            invariant
                h == header@.map_values(|h: String| h@),
                i <= header.len(),
                items@.len() == i,
                header_columns(h.take(i as int)) == Ok::<Seq<(Seq<char>, ColType)>, ErrorModel>(
                    items@.map_values(|c: ColItem| c@),
                ),
            decreases header.len() - i,
        {
            let item = ColItem::parse(&header[i]);
            assert(h.take(i + 1).drop_last() =~= h.take(i as int));
            assert(h.take(i + 1).last() == header@[i as int]@);
            match item {
                Ok(c) => {
                    let ghost before = items@;
                    items.push(c);
                    assert(items@.map_values(|c: ColItem| c@) =~= before.map_values(
                        |c: ColItem| c@,
                    ).push(items@[i as int]@));
                },
                Err(e) => {
                    proof {
                        lemma_header_error_stays(h, i as int + 1, e@);
                    }
                    return Err(e);
                },
            }
            i = i + 1;
        }
        assert(h.take(i as int) =~= h);
        Ok(Schema(items))
    }

    /// The number of columns.
    pub fn len(&self) -> (r: usize)
        ensures
            r == self@.len(),
    {
        self.0.len()
    }

    /// The first column called `name`, with its index.
    pub fn try_find_col(&self, name: &String) -> (r: Option<(usize, &ColItem)>)
        ensures
            match r {
                Some((i, c)) => col_index(self@, name@) == Some(i as int) && c@ == self@[i as int],
                None => col_index(self@, name@) == None::<int>,
            },
    {
        let mut i: usize = 0;
        while i < self.0.len()
            invariant
                i <= self.0.len(),
                forall|j: int| 0 <= j < i ==> self@[j].0 != name@,
            decreases self.0.len() - i,
        {
            if self.0[i].name == *name {
                assert(is_first_col(self@, name@, i as int));
                assert forall|x: int| is_first_col(self@, name@, x) implies x == i by {
                    if x < i {
                    } else if x > i {
                        assert(self@[i as int].0 == name@);
                    }
                }
                return Some((i, &self.0[i]));
            }
            i = i + 1;
        }
        None
    }
}

} // verus!

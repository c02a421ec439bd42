use vstd::prelude::*;
use vstd::string::*;

verus! {

/// What `str::trim` returns for a string: the string without its leading
/// and trailing Unicode whitespace.
pub uninterp spec fn trimmed(s: Seq<char>) -> Seq<char>;

/// Relies on `str::trim`: the result depends on the characters alone.
#[verifier::external_body]
fn trim_owned(s: &str) -> (r: String)
    ensures
        r@ == trimmed(s@),
{
    s.trim().to_owned()
}

/// `i` is the position of the first `c` in `s`.
pub open spec fn is_first_index(s: Seq<char>, c: char, i: int) -> bool {
    &&& 0 <= i < s.len()
    &&& s[i] == c
    &&& forall|j: int| 0 <= j < i ==> s[j] != c
}

/// One `key=value` pair as written on the command line.
#[derive(Debug, Clone, PartialEq, Eq)]
pub struct KeyValue {
    pub key: String,
    pub value: String,
}

/// A `key=value` pair without any `=`.
#[derive(Debug, Clone, PartialEq, Eq)]
pub struct KeyValueError {
    pub input: String,
}

impl KeyValue {
    /// Splits `s` at its first `=`; key and value are trimmed of whitespace.
    pub fn parse(s: &str) -> (r: Result<KeyValue, KeyValueError>)
        ensures
            r is Ok <==> s@.contains('='),
            r is Ok ==> exists|i: int|
                is_first_index(s@, '=', i) && r->Ok_0.key@ == trimmed(s@.subrange(0, i))
                    && r->Ok_0.value@ == trimmed(s@.subrange(i + 1, s@.len() as int)),
            r is Err ==> r->Err_0.input@ == s@,
    {
        let n = s.unicode_len();
        let mut i: usize = 0;
        while i < n
            invariant
                i <= n,
                n == s@.len(),
                forall|j: int| 0 <= j < i ==> s@[j] != '=',
            decreases n - i,
        {
            if s.get_char(i) == '=' {
                let key = trim_owned(s.substring_char(0, i));
                let value = trim_owned(s.substring_char(i + 1, n));
                assert(is_first_index(s@, '=', i as int));
                return Ok(KeyValue { key, value });
            }
            i = i + 1;
        }
        Err(KeyValueError { input: s.to_owned() })
    }
}

impl std::str::FromStr for KeyValue {
    type Err = KeyValueError;

    fn from_str(s: &str) -> Result<KeyValue, KeyValueError> {
        KeyValue::parse(s)
    }
}

/// An ordered list of overrides of one kind: pairs of a key and a value.
#[derive(Debug, Clone)]
pub struct Parameter(Vec<(String, String)>);

impl View for Parameter {
    type V = Seq<(Seq<char>, Seq<char>)>;

    closed spec fn view(&self) -> Seq<(Seq<char>, Seq<char>)> {
        self.0.deep_view()
    }
}

impl Parameter {
    /// The overrides, in the order given.
    pub fn new(pairs: Vec<(String, String)>) -> (r: Parameter)
        ensures
            r@ == pairs.deep_view(),
    {
        Parameter(pairs)
    }

    /// The overrides given as `key=value` pairs, in order.
    pub fn from_key_values(args: &Vec<KeyValue>) -> (r: Parameter)
        ensures
            r@.len() == args.len(),
            forall|i: int| 0 <= i < args.len() ==> #[trigger] r@[i] == (args[i].key@, args[i].value@),
    {
        let mut pairs: Vec<(String, String)> = Vec::new();
        let n = args.len();
        let mut i: usize = 0;
        while i < n
            invariant
                i <= n,
                n == args.len(),
                pairs@.len() == i,
                forall|j: int| 0 <= j < i ==> #[trigger] pairs@[j].0@ == args[j].key@ && pairs@[j].1@ == args[j].value@,
            decreases n - i,
        {
            pairs.push((args[i].key.clone(), args[i].value.clone()));
            i = i + 1;
        }
        Parameter(pairs)
    }

    /// The overrides, in order.
    pub fn pairs(&self) -> (r: &Vec<(String, String)>)
        ensures
            r.deep_view() == self@,
    {
        &self.0
    }
}

/// The overrides that apply to both requests of a comparison.
#[derive(Debug, Clone)]
pub struct ExtraArgs {
    pub headers: Parameter,
    pub query: Parameter,
    pub body: Parameter,
}

/// What an override changes.
#[derive(Debug, Clone, Copy, PartialEq, Eq, Structural)]
pub enum KeyValType {
    Query,
    Header,
    Body,
}

/// An override with its target, read from a flat `key=value` text: a key
/// that starts with `%` names a header, one that starts with `@` a body
/// field, any other a query parameter.
#[derive(Debug, Clone)]
pub struct KeyVal {
    pub key_type: KeyValType,
    pub key: String,
    pub value: String,
}

/// The target that a trimmed key names, and the key without its mark.
pub open spec fn classify_key(k: Seq<char>) -> (KeyValType, Seq<char>) {
    if k.len() > 0 && k[0] == '%' {
        (KeyValType::Header, k.drop_first())
    } else if k.len() > 0 && k[0] == '@' {
        (KeyValType::Body, k.drop_first())
    } else {
        (KeyValType::Query, k)
    }
}

impl KeyVal {
    /// Reads `s` as a `key=value` pair whose key carries its target.
    pub fn parse(s: &str) -> (r: Result<KeyVal, KeyValueError>)
        ensures
            r is Ok <==> s@.contains('='),
            r is Ok ==> exists|i: int|
                is_first_index(s@, '=', i) && (r->Ok_0.key_type, r->Ok_0.key@) == classify_key(
                    trimmed(s@.subrange(0, i)),
                ) && r->Ok_0.value@ == trimmed(s@.subrange(i + 1, s@.len() as int)),
            r is Err ==> r->Err_0.input@ == s@,
    {
        let kv = KeyValue::parse(s)?;
        let n = kv.key.unicode_len();
        if n > 0 && kv.key.as_str().get_char(0) == '%' {
            let key = kv.key.as_str().substring_char(1, n).to_owned();
            assert(key@ =~= kv.key@.drop_first());
            Ok(KeyVal { key_type: KeyValType::Header, key, value: kv.value })
        } else if n > 0 && kv.key.as_str().get_char(0) == '@' {
            let key = kv.key.as_str().substring_char(1, n).to_owned();
            assert(key@ =~= kv.key@.drop_first());
            Ok(KeyVal { key_type: KeyValType::Body, key, value: kv.value })
        } else {
            Ok(KeyVal { key_type: KeyValType::Query, key: kv.key, value: kv.value })
        }
    }
}

/// The overrides of `args` that have target `t`, in order.
pub open spec fn targeted(args: Seq<KeyVal>, t: KeyValType) -> Seq<(Seq<char>, Seq<char>)>
    decreases args.len(),
{
    if args.len() == 0 {
        Seq::empty()
    } else {
        let rest = targeted(args.drop_last(), t);
        let a = args.last();
        if a.key_type == t {
            rest.push((a.key@, a.value@))
        } else {
            rest
        }
    }
}

impl ExtraArgs {
    /// Sorts overrides by target, keeping their order within each target.
    pub fn from_key_vals(args: Vec<KeyVal>) -> (r: ExtraArgs)
        ensures
            r.headers@ == targeted(args@, KeyValType::Header),
            r.query@ == targeted(args@, KeyValType::Query),
            r.body@ == targeted(args@, KeyValType::Body),
    {
        let mut headers: Vec<(String, String)> = Vec::new();
        let mut query: Vec<(String, String)> = Vec::new();
        let mut body: Vec<(String, String)> = Vec::new();
        let n = args.len();
        let mut i: usize = 0;
        while i < n
            invariant
                i <= n,
                n == args.len(),
                headers.deep_view() == targeted(args@.subrange(0, i as int), KeyValType::Header),
                query.deep_view() == targeted(args@.subrange(0, i as int), KeyValType::Query),
                body.deep_view() == targeted(args@.subrange(0, i as int), KeyValType::Body),
            decreases n - i,
        {
            let a = &args[i];
            let pair = (a.key.clone(), a.value.clone());
            proof {
                let prefix = args@.subrange(0, i + 1);
                assert(prefix.drop_last() =~= args@.subrange(0, i as int));
                assert(prefix.last() == args@[i as int]);
            }
            match a.key_type {
                KeyValType::Header => {
                    let ghost before = headers.deep_view();
                    headers.push(pair);
                    assert(headers.deep_view() =~= before.push((a.key@, a.value@)));
                },
                KeyValType::Query => {
                    let ghost before = query.deep_view();
                    query.push(pair);
                    assert(query.deep_view() =~= before.push((a.key@, a.value@)));
                },
                KeyValType::Body => {
                    let ghost before = body.deep_view();
                    body.push(pair);
                    assert(body.deep_view() =~= before.push((a.key@, a.value@)));
                },
            }
            i = i + 1;
        }
        assert(args@.subrange(0, n as int) =~= args@);
        ExtraArgs { headers: Parameter(headers), query: Parameter(query), body: Parameter(body) }
    }
}

} // verus!

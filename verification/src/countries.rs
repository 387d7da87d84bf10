use vstd::prelude::*;

use crate::error::AppError;
use crate::text::{trim, trimmed};

verus! {

broadcast use vstd::string::group_string_axioms;

/// The map that a list of key/value pairs describes, later pairs overriding
/// earlier ones.
pub open spec fn pairs_map(s: Seq<(String, String)>) -> Map<Seq<char>, Seq<char>>
    decreases s.len(),
{
    if s.len() == 0 {
        Map::empty()
    } else {
        pairs_map(s.drop_last()).insert(s.last().0@, s.last().1@)
    }
}

/// No key occurs twice in the list.
pub open spec fn keys_distinct(s: Seq<(String, String)>) -> bool {
    forall|i: int, j: int| 0 <= i < j < s.len() ==> #[trigger] s[i].0@ != #[trigger] s[j].0@
}

proof fn lemma_pairs_map_dom(s: Seq<(String, String)>, k: Seq<char>)
    ensures
        pairs_map(s).dom().contains(k) <==> exists|i: int| 0 <= i < s.len() && (#[trigger] s[i]).0@
            == k,
    decreases s.len(),
{
    if s.len() > 0 {
        let t = s.drop_last();
        lemma_pairs_map_dom(t, k);
        if pairs_map(s).dom().contains(k) && k != s.last().0@ {
            let i = choose|i: int| 0 <= i < t.len() && (#[trigger] t[i]).0@ == k;
            assert(s[i] == t[i]);
        }
        if exists|i: int| 0 <= i < s.len() && (#[trigger] s[i]).0@ == k {
            let i = choose|i: int| 0 <= i < s.len() && (#[trigger] s[i]).0@ == k;
            if i < s.len() - 1 {
                assert(t[i] == s[i]);
            }
        }
    }
}

proof fn lemma_pairs_map_value(s: Seq<(String, String)>, i: int)
    requires
        keys_distinct(s),
        0 <= i < s.len(),
    ensures
        pairs_map(s).dom().contains(s[i].0@),
        pairs_map(s)[s[i].0@] == s[i].1@,
    decreases s.len(),
{
    let t = s.drop_last();
    if i < s.len() - 1 {
        assert(t[i] == s[i]);
        assert(keys_distinct(t)) by {
            assert forall|a: int, b: int| 0 <= a < b < t.len() implies #[trigger] t[a].0@
                != #[trigger] t[b].0@ by {
                assert(t[a] == s[a] && t[b] == s[b]);
            }
        }
        lemma_pairs_map_value(t, i);
        assert(s[i].0@ != s[s.len() - 1].0@);
    }
}

/// Country names by country code.
pub struct CountryMap {
    entries: Vec<(String, String)>,
}

impl View for CountryMap {
    type V = Map<Seq<char>, Seq<char>>;

    closed spec fn view(&self) -> Map<Seq<char>, Seq<char>> {
        pairs_map(self.entries@)
    }
}

/// What decoding a JSON text as an object of string values gives: the map
/// from its keys to its values, or `None` when the text is not such an
/// object.
pub uninterp spec fn json_string_map(text: Seq<char>) -> Option<Map<Seq<char>, Seq<char>>>;

/// Decodes a JSON object of string values with `serde_json::from_str` into an
/// ordered map and lists its entries. On success the entries hold each key
/// once and describe the named map; on failure the name is `None`.
#[verifier::external_body]
fn decode_json_string_map(text: &str) -> (r: Result<Vec<(String, String)>, serde_json::Error>)
    ensures
        match r {
            Ok(v) => keys_distinct(v@) && json_string_map(text@) == Some(pairs_map(v@)),
            Err(_) => json_string_map(text@) is None,
        },
{
    match serde_json::from_str::<std::collections::BTreeMap<String, String>>(text) {
        Ok(m) => Ok(m.into_iter().collect()),
        Err(e) => Err(e),
    }
}

impl CountryMap {
    #[verifier::type_invariant]
    spec fn well_formed(self) -> bool {
        keys_distinct(self.entries@)
    }

    /// A map that knows no country.
    pub fn new() -> (m: CountryMap)
        ensures
            m@ == Map::<Seq<char>, Seq<char>>::empty(),
    {
        CountryMap { entries: Vec::new() }
    }

    /// Reads the map from a JSON object whose keys are country codes and
    /// whose values are country names.
    pub fn from_json(text: &str) -> (r: Result<CountryMap, AppError>)
        ensures
            match r {
                Ok(m) => json_string_map(text@) == Some(m@),
                Err(e) => json_string_map(text@) is None && e is Json,
            },
    {
        match decode_json_string_map(text) {
            Ok(entries) => Ok(CountryMap { entries }),
            Err(e) => Err(AppError::Json(e)),
        }
    }

    /// The name of a country code, if the map knows it.
    pub fn lookup(&self, code: &str) -> (r: Option<&String>)
        ensures
            match r {
                Some(name) => self@.dom().contains(code@) && self@[code@] == name@,
                None => !self@.dom().contains(code@),
            },
    {
        proof {
            use_type_invariant(self);
        }
        let key = code.to_string();
        let mut i: usize = 0;
        while i < self.entries.len()
            invariant
                i <= self.entries.len(),
                key@ == code@,
                keys_distinct(self.entries@),
                forall|k: int| 0 <= k < i ==> (#[trigger] self.entries@[k]).0@ != code@,
            decreases self.entries.len() - i,
        {
            if self.entries[i].0 == key {
                proof {
                    lemma_pairs_map_value(self.entries@, i as int);
                }
                return Some(&self.entries[i].1);
            }
            i = i + 1;
        }
        proof {
            lemma_pairs_map_dom(self.entries@, code@);
        }
        None
    }
}

/// The name shown for a country code: "Unknown" for an empty code or the
/// code "(Unknown)", the map's name for a known code, else the code itself.
pub open spec fn country_name(code: Seq<char>, countries: Map<Seq<char>, Seq<char>>) -> Seq<char> {
    if trimmed(code) == "(Unknown)"@ || code.len() == 0 {
        "Unknown"@
    } else if countries.dom().contains(code) {
        countries[code]
    } else {
        code
    }
}

/// The name shown for a country code.
pub fn get_country_name(code: &str, countries: &CountryMap) -> (r: String)
    ensures
        r@ == country_name(code@, countries@),
{
    let unknown = "(Unknown)".to_string();
    if trim(code).to_string() == unknown || code.is_empty() {
        return "Unknown".to_string();
    }
    match countries.lookup(code) {
        Some(name) => name.clone(),
        None => code.to_string(),
    }
}

} // verus!

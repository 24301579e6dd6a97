//! The request lines sent to the git-annex batch workers.
use crate::annex::texts;
use crate::filepath::FilePath;
use vstd::prelude::*;

verus! {

/// The JSON text of string `s`, quotes and escapes included.
pub uninterp spec fn json_string(s: Seq<char>) -> Seq<char>;

/// Relies on serde_json's `Display` for `Value::String`, which writes the
/// compact JSON text of the string.
#[verifier::external_body]
pub(crate) fn quote_json(s: &str) -> (r: String)
    ensures
        r@ == json_string(s@),
{
    serde_json::Value::String(s.to_owned()).to_string()
}

/// The JSON strings of `vs`, separated by commas.
pub open spec fn json_items(vs: Seq<Seq<char>>) -> Seq<char>
    decreases vs.len(),
{
    if vs.len() == 0 {
        Seq::empty()
    } else if vs.len() == 1 {
        json_string(vs[0])
    } else {
        json_items(vs.drop_last()) + seq![','] + json_string(vs.last())
    }
}

/// The members `"name":["value",...]` of a JSON object, separated by commas.
pub open spec fn json_members(fs: Seq<(Seq<char>, Seq<Seq<char>>)>) -> Seq<char>
    decreases fs.len(),
{
    if fs.len() == 0 {
        Seq::empty()
    } else {
        let member = json_string(fs.last().0) + seq![':', '['] + json_items(fs.last().1) + seq![
            ']',
        ];
        if fs.len() == 1 {
            member
        } else {
            json_members(fs.drop_last()) + seq![','] + member
        }
    }
}

/// The names and values of metadata fields as text.
pub open spec fn field_texts(fs: Seq<(String, Vec<String>)>) -> Seq<(Seq<char>, Seq<Seq<char>>)> {
    fs.map_values(|f: (String, Vec<String>)| (f.0@, texts(f.1@)))
}

/// The JSON object that asks to set metadata `fs` on `key`.
pub open spec fn metadata_json(key: Seq<char>, fs: Seq<(Seq<char>, Seq<Seq<char>>)>) -> Seq<char> {
    "{\"key\":"@ + json_string(key) + ",\"fields\":{"@ + json_members(fs) + "}}"@
}

/// A request to download `url` to `path`.
#[derive(Clone, Debug, Eq, PartialEq)]
pub struct AddURLInput {
    pub url: String,
    pub path: FilePath,
}

impl AddURLInput {
    /// The request line, without its newline: the URL, a space, the path.
    pub fn for_input(&self) -> (r: String)
        ensures
            r@ == self.url@ + seq![' '] + self.path@,
    {
        proof {
            reveal_strlit(" ");
        }
        let mut s = self.url.clone();
        s.append(" ");
        s.append(self.path.as_str());
        s
    }
}

/// A request to record `url` as a location of the content of `key`.
#[derive(Clone, Debug, Eq, PartialEq)]
pub struct RegisterURLInput {
    pub key: String,
    pub url: String,
}

impl RegisterURLInput {
    /// The request line, without its newline: the key, a space, the URL.
    pub fn for_input(&self) -> (r: String)
        ensures
            r@ == self.key@ + seq![' '] + self.url@,
    {
        proof {
            reveal_strlit(" ");
        }
        let mut s = self.key.clone();
        s.append(" ");
        s.append(self.url.as_str());
        s
    }
}

/// A request to set metadata fields on the content of `key`.
#[derive(Clone, Debug, Eq, PartialEq)]
pub struct MetadataInput {
    pub key: String,
    /// Each field name with its values, in order, written as the members
    /// of a JSON object; names are expected once each, as in the request's
    /// metadata.
    pub fields: Vec<(String, Vec<String>)>,
}

impl MetadataInput {
    /// The request line, without its newline: a JSON object with the key and
    /// the fields.
    pub fn for_input(&self) -> (r: String)
        ensures
            r@ == metadata_json(self.key@, field_texts(self.fields@)),
    {
        let mut s = String::from_str("{\"key\":");
        let q = quote_json(self.key.as_str());
        s.append(q.as_str());
        s.append(",\"fields\":{");
        s.append(json_members_text(&self.fields).as_str());
        s.append("}}");
        s
    }
}

/// The members `"name":["value",...]` of a JSON object, separated by commas.
pub(crate) fn json_members_text(fields: &Vec<(String, Vec<String>)>) -> (r: String)
    ensures
        r@ == json_members(field_texts(fields@)),
{
    proof {
        reveal_strlit(",");
        reveal_strlit(":[");
        reveal_strlit("]");
    }
    let ghost fs = field_texts(fields@);
    let mut s = String::new();
    let n = fields.len();
    let mut i: usize = 0;
    while i < n
        invariant
            n == fields@.len() == fs.len(),
            fs == field_texts(fields@),
            ","@ == seq![','],
            ":["@ == seq![':', '['],
            "]"@ == seq![']'],
            i <= n,
            s@ == json_members(fs.take(i as int)),
        decreases n - i,
    {
        if i > 0 {
            s.append(",");
        }
        let name = quote_json(fields[i].0.as_str());
        s.append(name.as_str());
        s.append(":[");
        let values = json_list_items(&fields[i].1);
        s.append(values.as_str());
        s.append("]");
        proof {
            assert(fs.take(i + 1).drop_last() =~= fs.take(i as int));
            assert(fs.take(i + 1).last() == fs[i as int]);
            if i == 0 {
                assert(fs.take(0) =~= Seq::<(Seq<char>, Seq<Seq<char>>)>::empty());
            }
        }
        i = i + 1;
    }
    proof {
        assert(fs.take(n as int) =~= fs);
    }
    s
}

/// The JSON strings of `vs`, separated by commas.
pub(crate) fn json_list_items(vs: &Vec<String>) -> (r: String)
    ensures
        r@ == json_items(texts(vs@)),
{
    proof {
        reveal_strlit(",");
    }
    let ghost ts = texts(vs@);
    let mut s = String::new();
    let n = vs.len();
    let mut i: usize = 0;
    while i < n
        invariant
            n == vs@.len() == ts.len(),
            ts == texts(vs@),
            ","@ == seq![','],
            i <= n,
            s@ == json_items(ts.take(i as int)),
        decreases n - i,
    {
        if i > 0 {
            s.append(",");
        }
        let q = quote_json(vs[i].as_str());
        s.append(q.as_str());
        proof {
            assert(ts.take(i + 1).drop_last() =~= ts.take(i as int));
            assert(ts.take(i + 1).last() == ts[i as int]);
            if i == 0 {
                assert(ts.take(0) =~= Seq::<Seq<char>>::empty());
            }
        }
        i = i + 1;
    }
    proof {
        assert(ts.take(n as int) =~= ts);
    }
    s
}

} // verus!

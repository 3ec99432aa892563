//! The cover-identity registry of the client: the server names it may
//! present, one drawn at random per connection, and the ALPN offer.
use vstd::prelude::*;
use vstd::slice::slice_to_vec;
use vstd::utf8::encode_utf8;

use rand::Rng;

use crate::text::{split_semi, split_semicolons, trim_str, trimmed_of, views, ParseError};

verus! {

/// Whether a string is a DNS name or an IP address literal that TLS accepts
/// as a server name.
pub uninterp spec fn server_name_ok(s: Seq<char>) -> bool;

/// Relies on rustls::ServerName::try_from(&str): it accepts a syntactically
/// valid DNS name or an IP address literal, judged on the text alone.
#[verifier::external_body]
fn is_server_name(s: &str) -> (r: bool)
    ensures
        r == server_name_ok(s@),
{
    rustls::ServerName::try_from(s).is_ok()
}

/// Relies on rand::Rng::gen_range over rand::thread_rng: a value drawn
/// uniformly from `0..n`, which is not empty.
#[verifier::external_body]
fn random_below(n: usize) -> (r: usize)
    requires
        n > 0,
    ensures
        r < n,
{
    rand::thread_rng().gen_range(0..n)
}

/// The trimmed pieces of a `;`-separated list of names.
pub open spec fn name_pieces(s: Seq<char>) -> Seq<Seq<char>> {
    split_semi(s).map_values(|p: Seq<char>| trimmed_of(p))
}

/// Whether a trimmed piece is an acceptable cover identity.
pub open spec fn acceptable_name(p: Seq<char>) -> bool {
    p.len() > 0 && server_name_ok(p)
}

/// The names in order of first appearance, each once.
pub open spec fn dedup(s: Seq<Seq<char>>) -> Seq<Seq<char>>
    decreases s.len(),
{
    if s.len() == 0 {
        s
    } else {
        let d = dedup(s.drop_last());
        if d.contains(s.last()) {
            d
        } else {
            d.push(s.last())
        }
    }
}

/// The cover identities of a spec string, or the error it gives. A name
/// given twice is kept once.
pub open spec fn parse_names_spec(s: Seq<char>) -> Result<Seq<Seq<char>>, ParseError> {
    if forall|i: int| 0 <= i < name_pieces(s).len() ==> #[trigger] acceptable_name(
        name_pieces(s)[i],
    ) {
        Ok(dedup(name_pieces(s)))
    } else {
        Err(ParseError::InvalidName)
    }
}

/// The server names that a client presents; never empty.
#[derive(Clone, Debug, PartialEq)]
pub struct TlsNames(Vec<String>);

impl View for TlsNames {
    type V = Seq<Seq<char>>;

    closed spec fn view(&self) -> Seq<Seq<char>> {
        self.0@.map_values(|n: String| n@)
    }
}

impl TlsNames {
    /// At least one name is held.
    pub open spec fn wf(&self) -> bool {
        self@.len() > 0
    }

    /// Parses `name1;name2;...`: each piece is trimmed and must be a valid
    /// server name.
    pub fn try_from(value: &str) -> (r: Result<TlsNames, ParseError>)
        ensures
            match r {
                Ok(names) => parse_names_spec(value@) == Ok::<Seq<Seq<char>>, ParseError>(
                    names@,
                ) && names.wf(),
                Err(e) => parse_names_spec(value@) == Err::<Seq<Seq<char>>, ParseError>(e),
            },
            (exists|j: int|
                0 <= j < split_semi(value@).len() && (#[trigger] split_semi(value@)[j]).len()
                    == 0) ==> r == Err::<TlsNames, ParseError>(ParseError::InvalidName),
    {
        let parts = split_semicolons(value);
        proof {
            crate::text::lemma_split_nonempty(value@);
        }
        let ghost pieces = name_pieces(value@);
        let mut names: Vec<String> = Vec::new();
        let mut i: usize = 0;
        assert(pieces.take(0) =~= Seq::<Seq<char>>::empty());
        assert(names@.map_values(|n: String| n@) =~= Seq::<Seq<char>>::empty());
        while i < parts.len()
            invariant
                views(parts@) == split_semi(value@),
                pieces == name_pieces(value@),
                i <= parts@.len(),
                names@.map_values(|n: String| n@) == dedup(pieces.take(i as int)),
                forall|j: int| 0 <= j < i ==> #[trigger] acceptable_name(pieces[j]),
                forall|j: int| 0 <= j < i ==> (#[trigger] split_semi(value@)[j]).len() > 0,
            decreases parts@.len() - i,
        {
            let ghost before = names@.map_values(|n: String| n@);
            let piece = trim_str(parts[i]);
            assert(piece@ == pieces[i as int]);
            assert(parts[i as int]@ == split_semi(value@)[i as int]);
            if piece.is_empty() || !is_server_name(piece) {
                assert(!acceptable_name(pieces[i as int]));
                return Err(ParseError::InvalidName);
            }
            let owned = piece.to_owned();
            assert(pieces.take(i + 1).drop_last() =~= pieces.take(i as int));
            let mut k: usize = 0;
            let mut seen = false;
            while k < names.len()
                invariant
                    k <= names@.len(),
                    before == names@.map_values(|n: String| n@),
                    seen ==> before.contains(owned@),
                    !seen ==> forall|kk: int| 0 <= kk < k ==> before[kk] != owned@,
                decreases names@.len() - k,
            {
                if names[k] == owned {
                    assert(before[k as int] == owned@);
                    seen = true;
                }
                k = k + 1;
            }
            if !seen {
                names.push(owned);
                assert(names@.map_values(|n: String| n@) =~= before.push(pieces[i as int]));
            }
            i = i + 1;
        }
        assert(pieces.take(parts@.len() as int) =~= pieces);
        let r = TlsNames(names);
        assert(pieces.len() > 0);
        assert(pieces.take(pieces.len() - 1) =~= pieces.drop_last());
        Ok(r)
    }

    /// Draws one of the names, uniformly at random.
    pub fn random_choose(&self) -> (r: &String)
        requires
            self.wf(),
        ensures
            exists|i: int| 0 <= i < self@.len() && r@ == #[trigger] self@[i],
    {
        let i = random_below(self.0.len());
        assert(self.0@[i as int]@ == self@[i as int]);
        &self.0[i]
    }

    /// The number of names held.
    pub fn len(&self) -> (r: usize)
        ensures
            r == self@.len(),
    {
        self.0.len()
    }

    /// The name at position `i`.
    pub fn get(&self, i: usize) -> (r: &String)
        requires
            i < self@.len(),
        ensures
            r@ == self@[i as int],
    {
        &self.0[i]
    }
}

/// TLS extensions that the client offers: the ALPN protocol names, if any.
#[derive(Clone, Debug, Default)]
pub struct TlsExtConfig {
    alpn: Option<Vec<Vec<u8>>>,
}

impl TlsExtConfig {
    /// The offered ALPN protocol names, as bytes.
    pub closed spec fn alpn_view(&self) -> Option<Seq<Seq<u8>>> {
        match &self.alpn {
            Some(v) => Some(v@.map_values(|a: Vec<u8>| a@)),
            None => None,
        }
    }

    /// Offers the given protocol names, each as its UTF-8 bytes.
    pub fn from(alpn: Option<Vec<String>>) -> (r: TlsExtConfig)
        ensures
            match alpn {
                Some(v) => r.alpn_view() == Some(v@.map_values(|s: String| encode_utf8(s@))),
                None => r.alpn_view() == None::<Seq<Seq<u8>>>,
            },
    {
        match alpn {
            None => TlsExtConfig { alpn: None },
            Some(v) => {
                let mut out: Vec<Vec<u8>> = Vec::new();
                let mut i: usize = 0;
                while i < v.len()
                    invariant
                        i <= v@.len(),
                        out@.len() == i,
                        forall|j: int| 0 <= j < i ==> #[trigger] out@[j]@ == encode_utf8(v@[j]@),
                    decreases v@.len() - i,
                {
                    let bytes = slice_to_vec(v[i].as_str().as_bytes());
                    out.push(bytes);
                    i = i + 1;
                }
                let r = TlsExtConfig { alpn: Some(out) };
                assert(r.alpn_view().unwrap() =~= v@.map_values(|s: String| encode_utf8(s@)));
                r
            },
        }
    }

    /// The offered protocol names, if any.
    pub fn alpn(&self) -> (r: &Option<Vec<Vec<u8>>>)
        ensures
            match r {
                Some(v) => self.alpn_view() == Some(v@.map_values(|a: Vec<u8>| a@)),
                None => self.alpn_view() == None::<Seq<Seq<u8>>>,
            },
    {
        &self.alpn
    }
}

} // verus!

//! The server's dispatch table: backends by server name, with wildcard keys
//! and a mandatory fallback.
use vstd::prelude::*;
use vstd::string::StringExecFns;

use crate::text::{
    find, find_char, lower_of, lowercase, split_semi, split_semicolons, str_eq, trim_str,
    trimmed_of, views, ParseError,
};

verus! {

/// Whether names that match no key exactly may match a wildcard key.
#[derive(Clone, Copy, Debug, PartialEq, Eq, Structural)]
pub enum WildcardSNI {
    /// Exact keys only.
    Off,
    /// A key `*.suffix` matches a name made of one more label and `.suffix`.
    On,
    /// As `On`, but only for keys whose suffix has at least two labels, so that
    /// a match never spans a bare top-level domain.
    Auto,
}

/// The policy that a lower-case configuration word names.
pub open spec fn policy_of_word(w: Seq<char>) -> Option<WildcardSNI> {
    if w == "off"@ || w == "false"@ || w == "0"@ {
        Some(WildcardSNI::Off)
    } else if w == "on"@ || w == "true"@ || w == "1"@ {
        Some(WildcardSNI::On)
    } else if w == "auto"@ {
        Some(WildcardSNI::Auto)
    } else {
        None
    }
}

impl WildcardSNI {
    /// Reads a policy word that is already in lower case.
    pub fn from_lowercase(s: &str) -> (r: Option<WildcardSNI>)
        ensures
            r == policy_of_word(s@),
    {
        if str_eq(s, "off") || str_eq(s, "false") || str_eq(s, "0") {
            Some(WildcardSNI::Off)
        } else if str_eq(s, "on") || str_eq(s, "true") || str_eq(s, "1") {
            Some(WildcardSNI::On)
        } else if str_eq(s, "auto") {
            Some(WildcardSNI::Auto)
        } else {
            None
        }
    }

    /// Reads a policy word in any case: `off`/`false`/`0`, `on`/`true`/`1`
    /// or `auto`.
    pub fn from_str(s: &str, _ignore_case: bool) -> (r: Result<WildcardSNI, &'static str>)
        ensures
            match r {
                Ok(p) => policy_of_word(lower_of(s@)) == Some(p),
                Err(e) => policy_of_word(lower_of(s@)) == None::<WildcardSNI>
                    && e@ == "Invalid wildcard SNI value"@,
            },
    {
        let lowered = lowercase(s);
        match WildcardSNI::from_lowercase(lowered.as_str()) {
            Some(p) => Ok(p),
            None => Err("Invalid wildcard SNI value"),
        }
    }

    /// The configuration word of the policy.
    pub fn as_str(&self) -> (r: &'static str)
        ensures
            policy_of_word(r@) == Some(*self),
    {
        proof {
            reveal_strlit("off");
            reveal_strlit("on");
            reveal_strlit("auto");
            reveal_strlit("false");
            reveal_strlit("0");
            reveal_strlit("true");
            reveal_strlit("1");
            assert("on"@.len() == 2 && "off"@.len() == 3 && "false"@.len() == 5);
            assert("0"@.len() == 1 && "1"@.len() == 1 && "true"@.len() == 4);
            assert("auto"@.len() == 4 && "auto"@[0] == 'a' && "true"@[0] == 't');
            assert("on"@ != "off"@ && "on"@ != "false"@ && "on"@ != "0"@);
            assert("auto"@ != "off"@ && "auto"@ != "false"@ && "auto"@ != "0"@);
            assert("auto"@ != "on"@ && "auto"@ != "true"@ && "auto"@ != "1"@);
        }
        match self {
            WildcardSNI::Off => "off",
            WildcardSNI::On => "on",
            WildcardSNI::Auto => "auto",
        }
    }
}

impl core::str::FromStr for WildcardSNI {
    type Err = &'static str;

    fn from_str(s: &str) -> Result<WildcardSNI, &'static str> {
        WildcardSNI::from_str(s, true)
    }
}

/// Name and backend address of each dispatch entry.
pub type Entries = Seq<(Seq<char>, Seq<char>)>;

/// The contents of a vector of entries.
pub open spec fn entry_views(v: Seq<(String, String)>) -> Entries {
    v.map_values(|e: (String, String)| (e.0@, e.1@))
}

/// The contents of an optional string.
pub open spec fn opt_view(o: Option<String>) -> Option<Seq<char>> {
    match o {
        Some(s) => Some(s@),
        None => None,
    }
}

/// Whether some entry has name `k`.
pub open spec fn has_key(es: Entries, k: Seq<char>) -> bool {
    exists|j: int| 0 <= j < es.len() && (#[trigger] es[j]).0 == k
}

/// No two entries have the same name.
pub open spec fn keys_unique(es: Entries) -> bool {
    forall|i: int, j: int| 0 <= i < es.len() && 0 <= j < es.len() && i != j ==> (
    #[trigger] es[i]).0 != (#[trigger] es[j]).0
}

/// A bare fallback address, with port 443 added when it names none.
pub open spec fn with_port(t: Seq<char>) -> Seq<char> {
    if find(t, ':') < t.len() {
        t
    } else {
        t + ":443"@
    }
}

/// Entries so far and the fallback, if one was seen.
pub type Acc = (Entries, Option<Seq<char>>);

/// Takes one trimmed piece of a dispatch spec into account.
pub open spec fn dispatch_step(acc: Acc, t: Seq<char>) -> Result<Acc, ParseError> {
    if t.len() == 0 {
        Ok(acc)
    } else if find(t, '=') < t.len() {
        let e = find(t, '=');
        let key = t.subrange(0, e);
        let val = t.subrange(e + 1, t.len() as int);
        if key.len() == 0 || val.len() == 0 {
            Err(ParseError::InvalidEntry)
        } else if has_key(acc.0, lower_of(key)) {
            Err(ParseError::DuplicateName)
        } else {
            Ok((acc.0.push((lower_of(key), val)), acc.1))
        }
    } else if acc.1 is Some {
        Err(ParseError::MultipleFallback)
    } else {
        Ok((acc.0, Some(with_port(t))))
    }
}

/// Takes the pieces of a dispatch spec into account, in order.
pub open spec fn dispatch_fold(segs: Seq<Seq<char>>) -> Result<Acc, ParseError>
    decreases segs.len(),
{
    if segs.len() == 0 {
        Ok((Seq::empty(), None))
    } else {
        match dispatch_fold(segs.drop_last()) {
            Err(e) => Err(e),
            Ok(acc) => dispatch_step(acc, trimmed_of(segs.last())),
        }
    }
}

/// The entries and fallback of a dispatch spec, or the error it gives.
pub open spec fn parse_dispatch_spec(s: Seq<char>) -> Result<(Entries, Seq<char>), ParseError> {
    match dispatch_fold(split_semi(s)) {
        Err(e) => Err(e),
        Ok(acc) => match acc.1 {
            None => Err(ParseError::MissingFallback),
            Some(fb) => Ok((acc.0, fb)),
        },
    }
}

proof fn lemma_fold_err_sticks(segs: Seq<Seq<char>>, k: int)
    requires
        0 <= k <= segs.len(),
        dispatch_fold(segs.take(k)) is Err,
    ensures
        dispatch_fold(segs) == dispatch_fold(segs.take(k)),
    decreases segs.len(),
{
    if k == segs.len() {
        assert(segs.take(k) =~= segs);
    } else {
        assert(segs.drop_last().take(k) =~= segs.take(k));
        lemma_fold_err_sticks(segs.drop_last(), k);
    }
}

/// Whether wildcard key `key` (`*.suffix`) matches `name`: the name is one
/// label without a dot followed by `.suffix`. Under `auto_only` the suffix
/// must itself hold a dot.
pub open spec fn wildcard_match(key: Seq<char>, name: Seq<char>, auto_only: bool) -> bool {
    let suf = key.subrange(1, key.len() as int);
    let head = name.len() - suf.len();
    &&& key.len() >= 2
    &&& key[0] == '*'
    &&& key[1] == '.'
    &&& name.len() > suf.len()
    &&& name.subrange(head, name.len() as int) == suf
    &&& find(name.subrange(0, head), '.') == head
    &&& auto_only ==> find(key.subrange(2, key.len() as int), '.') < key.len() - 2
}

/// The backend of the first entry at or after `i` whose name is `name`.
pub open spec fn first_exact(es: Entries, name: Seq<char>, i: int) -> Option<Seq<char>>
    decreases es.len() - i,
{
    if i < 0 || i >= es.len() {
        None
    } else if es[i].0 == name {
        Some(es[i].1)
    } else {
        first_exact(es, name, i + 1)
    }
}

/// The backend of the first entry at or after `i` whose wildcard name
/// matches `name`.
pub open spec fn first_wildcard(es: Entries, name: Seq<char>, auto_only: bool, i: int) -> Option<
    Seq<char>,
>
    decreases es.len() - i,
{
    if i < 0 || i >= es.len() {
        None
    } else if wildcard_match(es[i].0, name, auto_only) {
        Some(es[i].1)
    } else {
        first_wildcard(es, name, auto_only, i + 1)
    }
}

/// The backend for an observed (case-folded) server name: an exact entry,
/// else a wildcard entry that the policy allows, else the fallback.
pub open spec fn resolve_spec(
    es: Entries,
    fallback: Seq<char>,
    policy: WildcardSNI,
    sni: Option<Seq<char>>,
) -> Seq<char> {
    match sni {
        None => fallback,
        Some(n) => match first_exact(es, n, 0) {
            Some(v) => v,
            None => if policy == WildcardSNI::Off {
                fallback
            } else {
                match first_wildcard(es, n, policy == WildcardSNI::Auto, 0) {
                    Some(v) => v,
                    None => fallback,
                }
            },
        },
    }
}

/// Decides whether the wildcard key `key` matches `name`.
pub fn wildcard_matches(key: &str, name: &str, auto_only: bool) -> (r: bool)
    ensures
        r == wildcard_match(key@, name@, auto_only),
{
    let kn = key.unicode_len();
    if kn < 2 {
        return false;
    }
    if key.get_char(0) != '*' || key.get_char(1) != '.' {
        return false;
    }
    let nn = name.unicode_len();
    let sl = kn - 1;
    if nn <= sl {
        return false;
    }
    let head = nn - sl;
    if !str_eq(name.substring_char(head, nn), key.substring_char(1, kn)) {
        return false;
    }
    if find_char(name.substring_char(0, head), '.') != head {
        return false;
    }
    if auto_only {
        find_char(key.substring_char(2, kn), '.') < kn - 2
    } else {
        true
    }
}

/// The contents of an optional string slice.
pub open spec fn opt_str_view(o: Option<&str>) -> Option<Seq<char>> {
    match o {
        Some(s) => Some(s@),
        None => None,
    }
}

/// The dispatch table of a server.
#[derive(Clone, Debug, PartialEq)]
pub struct TlsAddrs {
    dispatch: Vec<(String, String)>,
    fallback: String,
    wildcard_sni: WildcardSNI,
}

impl TlsAddrs {
    /// The entries, in the order of the spec they came from.
    pub closed spec fn entries(&self) -> Entries {
        entry_views(self.dispatch@)
    }

    /// The fallback address.
    pub closed spec fn fallback_view(&self) -> Seq<char> {
        self.fallback@
    }

    /// The wildcard policy.
    pub closed spec fn policy(&self) -> WildcardSNI {
        self.wildcard_sni
    }

    /// Names are unique and the fallback is not empty.
    pub open spec fn wf(&self) -> bool {
        keys_unique(self.entries()) && self.fallback_view().len() > 0
    }

    /// Parses `sni1=host1:port1;...;fallback_host:port`. Pieces are trimmed
    /// and empty ones skipped; names are case-folded; a bare address without
    /// a port gets port 443. The policy starts as `Off`.
    pub fn try_from(value: &str) -> (r: Result<TlsAddrs, ParseError>)
        ensures
            match r {
                Ok(t) => parse_dispatch_spec(value@) == Ok::<(Entries, Seq<char>), ParseError>(
                    (t.entries(), t.fallback_view()),
                ) && t.policy() == WildcardSNI::Off && t.wf(),
                Err(e) => parse_dispatch_spec(value@) == Err::<(Entries, Seq<char>), ParseError>(
                    e,
                ),
            },
            (forall|j: int|
                0 <= j < split_semi(value@).len() ==> (#[trigger] split_semi(value@)[j]).len()
                    == 0) ==> r == Err::<TlsAddrs, ParseError>(ParseError::MissingFallback),
    {
        let parts = split_semicolons(value);
        let mut dispatch: Vec<(String, String)> = Vec::new();
        let mut fallback: Option<String> = None;
        let mut i: usize = 0;
        assert(views(parts@).take(0) =~= Seq::<Seq<char>>::empty());
        assert(entry_views(dispatch@) =~= Seq::<(Seq<char>, Seq<char>)>::empty());
        while i < parts.len()
            invariant
                views(parts@) == split_semi(value@),
                i <= parts@.len(),
                dispatch_fold(views(parts@).take(i as int)) == Ok::<Acc, ParseError>(
                    (entry_views(dispatch@), opt_view(fallback)),
                ),
                keys_unique(entry_views(dispatch@)),
                fallback is Some ==> fallback->Some_0@.len() > 0,
                (forall|j: int|
                    0 <= j < split_semi(value@).len() ==> (#[trigger] split_semi(value@)[j]).len()
                        == 0) ==> fallback is None,
            decreases parts@.len() - i,
        {
            let ghost segs = views(parts@).take(i + 1);
            let ghost acc = (entry_views(dispatch@), opt_view(fallback));
            assert(segs.drop_last() =~= views(parts@).take(i as int));
            let t = trim_str(parts[i]);
            assert(parts[i as int]@ == split_semi(value@)[i as int]);
            assert(dispatch_fold(segs) == dispatch_step(acc, t@));
            let n = t.unicode_len();
            if n == 0 {
                i = i + 1;
                continue;
            }
            let e = find_char(t, '=');
            if e < n {
                if e == 0 || e + 1 == n {
                    proof {
                        lemma_fold_err_sticks(views(parts@), i + 1);
                    }
                    return Err(ParseError::InvalidEntry);
                }
                let key = lowercase(t.substring_char(0, e));
                let val = t.substring_char(e + 1, n);
                let mut j: usize = 0;
                while j < dispatch.len()
                    invariant
                        views(parts@) == split_semi(value@),
                        split_semi(value@)[i as int].len() > 0,
                        i < parts@.len(),
                        segs == views(parts@).take(i + 1),
                        dispatch_fold(segs) == dispatch_step(acc, t@),
                        acc.0 == entry_views(dispatch@),
                        n == t@.len(),
                        e == find(t@, '='),
                        0 < e,
                        e + 1 < n,
                        key@ == lower_of(t@.subrange(0, e as int)),
                        j <= dispatch@.len(),
                        forall|jj: int| 0 <= jj < j ==> (#[trigger] dispatch@[jj]).0@ != key@,
                    decreases dispatch@.len() - j,
                {
                    if dispatch[j].0 == key {
                        assert(entry_views(dispatch@)[j as int].0 == key@);
                        proof {
                            lemma_fold_err_sticks(views(parts@), i + 1);
                        }
                        return Err(ParseError::DuplicateName);
                    }
                    j = j + 1;
                }
                assert(!has_key(acc.0, key@)) by {
                    if has_key(acc.0, key@) {
                        let w = choose|w: int| 0 <= w < acc.0.len() && (#[trigger] acc.0[w]).0 == key@;
                        assert(dispatch@[w].0@ == key@);
                    }
                };
                let ghost before = dispatch@;
                dispatch.push((key, val.to_owned()));
                assert(entry_views(dispatch@) =~= entry_views(before).push((key@, val@)));
            } else {
                if fallback.is_some() {
                    proof {
                        lemma_fold_err_sticks(views(parts@), i + 1);
                    }
                    return Err(ParseError::MultipleFallback);
                }
                let fb = if find_char(t, ':') < n {
                    t.to_owned()
                } else {
                    t.to_owned().concat(":443")
                };
                fallback = Some(fb);
            }
            i = i + 1;
        }
        assert(views(parts@).take(parts@.len() as int) =~= views(parts@));
        match fallback {
            None => Err(ParseError::MissingFallback),
            Some(fb) => Ok(TlsAddrs { dispatch, fallback: fb, wildcard_sni: WildcardSNI::Off }),
        }
    }

    /// Sets the wildcard policy, leaving the entries and fallback as they are.
    pub fn set_wildcard_sni(&mut self, wildcard_sni: WildcardSNI)
        ensures
            final(self).entries() == old(self).entries(),
            final(self).fallback_view() == old(self).fallback_view(),
            final(self).policy() == wildcard_sni,
    {
        self.wildcard_sni = wildcard_sni;
    }

    /// The fallback address.
    pub fn fallback(&self) -> (r: &String)
        ensures
            r@ == self.fallback_view(),
    {
        &self.fallback
    }

    /// The wildcard policy.
    pub fn wildcard_sni(&self) -> (r: WildcardSNI)
        ensures
            r == self.policy(),
    {
        self.wildcard_sni
    }

    /// The number of entries.
    pub fn len(&self) -> (r: usize)
        ensures
            r == self.entries().len(),
    {
        self.dispatch.len()
    }

    /// The backend for a server name that is already case-folded, or for
    /// none when the client sent no SNI.
    pub fn resolve_lowered(&self, sni: Option<&str>) -> (r: &String)
        ensures
            r@ == resolve_spec(self.entries(), self.fallback_view(), self.policy(), opt_str_view(sni)),
    {
        let ghost es = self.entries();
        let name = match sni {
            None => {
                return &self.fallback;
            },
            Some(n) => n,
        };
        let mut i: usize = 0;
        while i < self.dispatch.len()
            invariant
                es == entry_views(self.dispatch@),
                sni == Some(name),
                i <= self.dispatch@.len(),
                first_exact(es, name@, 0) == first_exact(es, name@, i as int),
            decreases self.dispatch@.len() - i,
        {
            assert(es[i as int] == (self.dispatch@[i as int].0@, self.dispatch@[i as int].1@));
            if str_eq(self.dispatch[i].0.as_str(), name) {
                return &self.dispatch[i].1;
            }
            i = i + 1;
        }
        if self.wildcard_sni == WildcardSNI::Off {
            return &self.fallback;
        }
        let auto_only = self.wildcard_sni == WildcardSNI::Auto;
        let mut k: usize = 0;
        while k < self.dispatch.len()
            invariant
                es == entry_views(self.dispatch@),
                sni == Some(name),
                first_exact(es, name@, 0) is None,
                auto_only == (self.wildcard_sni == WildcardSNI::Auto),
                self.wildcard_sni != WildcardSNI::Off,
                k <= self.dispatch@.len(),
                first_wildcard(es, name@, auto_only, 0) == first_wildcard(
                    es,
                    name@,
                    auto_only,
                    k as int,
                ),
            decreases self.dispatch@.len() - k,
        {
            assert(es[k as int] == (self.dispatch@[k as int].0@, self.dispatch@[k as int].1@));
            if wildcard_matches(self.dispatch[k].0.as_str(), name, auto_only) {
                return &self.dispatch[k].1;
            }
            k = k + 1;
        }
        &self.fallback
    }

    /// The backend for an observed server name, compared in lower case, or
    /// for none when the client sent no SNI.
    pub fn resolve(&self, sni: Option<&str>) -> (r: String)
        ensures
            r@ == resolve_spec(
                self.entries(),
                self.fallback_view(),
                self.policy(),
                match sni {
                    Some(s) => Some(lower_of(s@)),
                    None => None,
                },
            ),
    {
        match sni {
            None => self.resolve_lowered(None).clone(),
            Some(s) => {
                let lowered = lowercase(s);
                self.resolve_lowered(Some(lowered.as_str())).clone()
            },
        }
    }
}

proof fn lemma_first_exact_found(es: Entries, n: Seq<char>, i: int, j: int)
    requires
        keys_unique(es),
        0 <= i <= j < es.len(),
        es[j].0 == n,
    ensures
        first_exact(es, n, i) == Some(es[j].1),
    decreases j - i,
{
    if i < j {
        assert(es[i].0 != es[j].0);
        lemma_first_exact_found(es, n, i + 1, j);
    }
}

proof fn lemma_first_exact_absent(es: Entries, n: Seq<char>, i: int)
    requires
        !has_key(es, n),
        0 <= i,
    ensures
        first_exact(es, n, i) is None,
    decreases es.len() - i,
{
    if i < es.len() {
        assert(es[i].0 != n);
        lemma_first_exact_absent(es, n, i + 1);
    }
}

/// An entry whose name is exactly the observed name wins under every
/// wildcard policy.
pub proof fn lemma_exact_match_wins(
    es: Entries,
    fallback: Seq<char>,
    policy: WildcardSNI,
    n: Seq<char>,
    j: int,
)
    requires
        keys_unique(es),
        0 <= j < es.len(),
        es[j].0 == n,
    ensures
        resolve_spec(es, fallback, policy, Some(n)) == es[j].1,
{
    lemma_first_exact_found(es, n, 0, j);
}

/// With the wildcard policy off, a name that no entry has goes to the
/// fallback; so does a connection without SNI under every policy.
pub proof fn lemma_unmatched_goes_to_fallback(
    es: Entries,
    fallback: Seq<char>,
    policy: WildcardSNI,
    n: Seq<char>,
)
    requires
        !has_key(es, n),
    ensures
        resolve_spec(es, fallback, WildcardSNI::Off, Some(n)) == fallback,
        resolve_spec(es, fallback, policy, None) == fallback,
{
    lemma_first_exact_absent(es, n, 0);
}

} // verus!

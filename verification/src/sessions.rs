//! Sessions: which data key a visitor may use, by a token in a cookie.
use vstd::prelude::*;
use vstd::string::*;

use crate::crypto::{is_url_char, Dek};
use crate::text::{
    chars_of, first_place, join3, same, split, split_parts, trim_back, trim_front, trimmed, views,
    white_space,
};
use crate::token::new_token;

verus! {

/// The name of the cookie that holds the token of a session.
pub open spec fn session_cookie() -> Seq<char> {
    "haruka_session"@
}

/// The token of a session, and its data key.
pub struct Session {
    pub token: String,
    pub dek: Dek,
}

/// The sessions that are open. No two have the same token.
pub struct Sessions {
    pub entries: Vec<Session>,
}

/// The data keys of the first `n` sessions, by their tokens.
pub open spec fn keys_of(entries: Seq<Session>, n: int) -> Map<Seq<char>, Seq<u8>>
    decreases n,
{
    if n <= 0 {
        Map::empty()
    } else {
        keys_of(entries, n - 1).insert(entries[n - 1].token@, entries[n - 1].dek@)
    }
}

impl View for Sessions {
    type V = Map<Seq<char>, Seq<u8>>;

    open spec fn view(&self) -> Map<Seq<char>, Seq<u8>> {
        keys_of(self.entries@, self.entries@.len() as int)
    }
}

proof fn keys_known(entries: Seq<Session>, n: int)
    requires
        0 <= n <= entries.len(),
        distinct(entries),
    ensures
        forall|i: int|
            0 <= i < n ==> keys_of(entries, n).dom().contains((#[trigger] entries[i]).token@)
                && keys_of(entries, n)[entries[i].token@] == entries[i].dek@,
        forall|t: Seq<char>| #[trigger]
            keys_of(entries, n).dom().contains(t) ==> exists|i: int|
                0 <= i < n && (#[trigger] entries[i]).token@ == t,
    decreases n,
{
    if n > 0 {
        keys_known(entries, n - 1);
        assert forall|t: Seq<char>| #[trigger]
            keys_of(entries, n).dom().contains(t) implies exists|i: int|
            0 <= i < n && (#[trigger] entries[i]).token@ == t by {
            if t == entries[n - 1].token@ {
                assert(entries[n - 1].token@ == t);
            } else {
                assert(keys_of(entries, n - 1).dom().contains(t));
                let i = choose|i: int| 0 <= i < n - 1 && (#[trigger] entries[i]).token@ == t;
                assert(entries[i].token@ == t);
            }
        }
    }
}

/// No two sessions have the same token.
pub open spec fn distinct(entries: Seq<Session>) -> bool {
    forall|i: int, j: int|
        0 <= i < j < entries.len() ==> (#[trigger] entries[i]).token@ != (
        #[trigger] entries[j]).token@
}

proof fn keys_agree(a: Seq<Session>, b: Seq<Session>, n: int)
    requires
        n <= a.len(),
        n <= b.len(),
        forall|i: int| 0 <= i < n ==> a[i] == #[trigger] b[i],
    ensures
        keys_of(a, n) == keys_of(b, n),
    decreases n,
{
    if n > 0 {
        keys_agree(a, b, n - 1);
    }
}

impl Sessions {
    /// No two sessions have the same token.
    pub open spec fn wf(self) -> bool {
        distinct(self.entries@)
    }

    /// No session is open.
    pub fn new() -> (r: Sessions)
        ensures
            r.wf(),
            r@ == Map::<Seq<char>, Seq<u8>>::empty(),
    {
        Sessions { entries: Vec::new() }
    }

    fn find(&self, token: &str) -> (r: Option<usize>)
        requires
            self.wf(),
        ensures
            match r {
                Some(i) => i < self.entries@.len() && self.entries@[i as int].token@ == token@
                    && self@.dom().contains(token@) && self@[token@]
                    == self.entries@[i as int].dek@,
                None => !self@.dom().contains(token@) && forall|j: int|
                    0 <= j < self.entries@.len() ==> (#[trigger] self.entries@[j]).token@
                        != token@,
            },
    {
        proof {
            keys_known(self.entries@, self.entries@.len() as int);
        }
        let mut i: usize = 0;
        while i < self.entries.len()
            invariant
                i <= self.entries.len(),
                self.wf(),
                forall|j: int|
                    0 <= j < i ==> (#[trigger] self.entries@[j]).token@ != token@,
            decreases self.entries.len() - i,
        {
            if same(&self.entries[i].token, token) {
                proof {
                    keys_known(self.entries@, self.entries@.len() as int);
                }
                return Some(i);
            }
            i = i + 1;
        }
        None
    }

    /// The data key of a session.
    pub fn get(&self, token: &str) -> (r: Option<Dek>)
        requires
            self.wf(),
        ensures
            match r {
                Some(dek) => self@.dom().contains(token@) && self@[token@] == dek@,
                None => !self@.dom().contains(token@),
            },
    {
        match self.find(token) {
            Some(i) => Some(self.entries[i].dek),
            None => None,
        }
    }

    /// The data key of some session, where there is one.
    pub fn any_session_dek(&self) -> (r: Option<Dek>)
        requires
            self.wf(),
        ensures
            match r {
                Some(dek) => exists|token: Seq<char>| #[trigger]
                    self@.dom().contains(token) && self@[token] == dek@,
                None => self@ == Map::<Seq<char>, Seq<u8>>::empty(),
            },
    {
        if self.entries.len() == 0 {
            return None;
        }
        proof {
            keys_known(self.entries@, self.entries@.len() as int);
            assert(self@.dom().contains(self.entries@[0].token@));
        }
        Some(self.entries[0].dek)
    }

    /// Ends a session.
    pub fn remove(&mut self, token: &str)
        requires
            old(self).wf(),
        ensures
            final(self).wf(),
            final(self)@ == old(self)@.remove(token@),
    {
        let ghost before = self.entries@;
        let ghost n = before.len() as int;
        proof {
            keys_known(before, n);
        }
        if let Some(i) = self.find(token) {
            let _gone = self.entries.remove(i);
            proof {
                let after = self.entries@;
                assert(after =~= before.remove(i as int));
                assert(distinct(after)) by {
                    assert forall|a: int, b: int| 0 <= a < b < after.len() implies (
                    #[trigger] after[a]).token@ != (#[trigger] after[b]).token@ by {
                        let x = if a < i {
                            a
                        } else {
                            a + 1
                        };
                        let y = if b < i {
                            b
                        } else {
                            b + 1
                        };
                        assert(before[x].token@ != before[y].token@);
                    }
                }
                keys_known(after, after.len() as int);
                let k = keys_of(after, after.len() as int);
                let wanted = keys_of(before, n).remove(token@);
                assert forall|t: Seq<char>| #[trigger] k.dom().contains(t) == wanted.dom().contains(
                    t,
                ) by {
                    if k.dom().contains(t) {
                        let a = choose|a: int|
                            0 <= a < after.len() && (#[trigger] after[a]).token@ == t;
                        let x = if a < i {
                            a
                        } else {
                            a + 1
                        };
                        assert(before[x].token@ == t);
                        if x < i {
                            assert(before[x].token@ != before[i as int].token@);
                        } else {
                            assert(before[i as int].token@ != before[x].token@);
                        }
                    }
                    if wanted.dom().contains(t) {
                        let x = choose|x: int| 0 <= x < n && (#[trigger] before[x]).token@ == t;
                        let a = if x < i {
                            x
                        } else {
                            x - 1
                        };
                        assert(x != i);
                        assert(after[a].token@ == t);
                    }
                }
                assert forall|t: Seq<char>| #[trigger] k.dom().contains(t) implies k[t]
                    == wanted[t] by {
                    let a = choose|a: int| 0 <= a < after.len() && (#[trigger] after[a]).token@ == t;
                    let x = if a < i {
                        a
                    } else {
                        a + 1
                    };
                    assert(before[x].token@ == t);
                }
                assert(k =~= wanted);
            }
        } else {
            proof {
                assert(keys_of(before, n).remove(token@) =~= keys_of(before, n));
            }
        }
    }

    /// Ends all sessions.
    pub fn clear_sessions(&mut self)
        ensures
            final(self).wf(),
            final(self)@ == Map::<Seq<char>, Seq<u8>>::empty(),
    {
        self.entries = Vec::new();
    }

    /// Opens a session: the cookie to set.
    pub fn create_session(&mut self, dek: &Dek) -> (r: String)
        requires
            old(self).wf(),
        ensures
            final(self).wf(),
            exists|token: Seq<char>| #[trigger]
                is_session_token(token) && r@ == cookie_text(token) && final(self)@ == old(
                    self,
                )@.insert(token, dek@),
    {
        let (_bytes, token) = new_token();
        let ghost earlier = self@;
        self.remove(&token);
        let cookie = join3("haruka_session=", &token, "; Path=/; HttpOnly; SameSite=Strict");
        let ghost t = token@;
        let ghost front = self.entries@;
        proof {
            keys_known(front, front.len() as int);
        }
        self.entries.push(Session { token, dek: *dek });
        proof {
            let after = self.entries@;
            keys_agree(front, after, front.len() as int);
            assert(distinct(after)) by {
                assert forall|a: int, b: int| 0 <= a < b < after.len() implies (
                #[trigger] after[a]).token@ != (#[trigger] after[b]).token@ by {
                    assert(after[a] == front[a]);
                    if b < front.len() {
                        assert(after[b] == front[b]);
                    } else {
                        assert(keys_of(front, front.len() as int).dom().contains(front[a].token@));
                    }
                }
            }
            assert(self@ =~= earlier.insert(t, dek@));
            assert(is_session_token(t));
        }
        cookie
    }
}

/// The token of a session: 43 characters of base64 for URLs.
pub open spec fn is_session_token(token: Seq<char>) -> bool {
    token.len() == 43 && forall|i: int| 0 <= i < token.len() ==> is_url_char(#[trigger] token[i])
}

/// The cookie that a session sets.
pub open spec fn cookie_text(token: Seq<char>) -> Seq<char> {
    "haruka_session="@ + token + "; Path=/; HttpOnly; SameSite=Strict"@
}

/// The cookie that takes the token of a session away.
pub fn clear_session_cookie() -> (r: &'static str)
    ensures
        r@ == "haruka_session=; Path=/; HttpOnly; SameSite=Strict; Max-Age=0"@,
{
    "haruka_session=; Path=/; HttpOnly; SameSite=Strict; Max-Age=0"
}

/// A part of the value of a cookie header, as the name and the value around its first equals sign.
pub open spec fn name_and_value(part: Seq<char>) -> Option<(Seq<char>, Seq<char>)> {
    let text = trimmed(part);
    let at = first_place(text, seq!['='], 0);
    if at < 0 {
        None
    } else {
        Some((text.subrange(0, at), text.subrange(at + 1, text.len() as int)))
    }
}

/// The token in the first `n` parts of the value of a cookie header: that of the first cookie with
/// the right name.
pub open spec fn token_among(parts: Seq<Seq<char>>, from: int) -> Option<Seq<char>>
    decreases parts.len() - from,
{
    if from >= parts.len() {
        None
    } else {
        match name_and_value(parts[from]) {
            Some((name, value)) => if name == session_cookie() {
                Some(value)
            } else {
                token_among(parts, from + 1)
            },
            None => token_among(parts, from + 1),
        }
    }
}

/// The token in the value of a cookie header.
pub open spec fn token_in_cookies(value: Seq<char>) -> Option<Seq<char>> {
    token_among(split_parts(value, ';'), 0)
}

fn split_name(part: &str) -> (r: Option<(String, String)>)
    ensures
        match r {
            Some((name, value)) => name_and_value(part@) == Some((name@, value@)),
            None => name_and_value(part@) is None,
        },
{
    let chars = chars_of(part.trim());
    let ghost sign = seq!['='];
    let mut at: usize = 0;
    while at < chars.len() && chars[at] != '='
        invariant
            at <= chars@.len(),
            sign == seq!['='],
            first_place(chars@, sign, 0) == first_place(chars@, sign, at as int),
        decreases chars.len() - at,
    {
        proof {
            assert(chars@.subrange(at as int, at + 1)[0] != sign[0]);
        }
        at = at + 1;
    }
    if at == chars.len() {
        return None;
    }
    proof {
        assert(chars@.subrange(at as int, at + 1) =~= sign);
    }
    let mut name = String::new();
    let mut i: usize = 0;
    proof {
        assert(name@ =~= chars@.subrange(0, 0));
    }
    while i < at
        invariant
            i <= at < chars@.len(),
            name@ == chars@.subrange(0, i as int),
        decreases at - i,
    {
        name.push(chars[i]);
        proof {
            assert(chars@.subrange(0, i + 1) =~= chars@.subrange(0, i as int).push(
                chars@[i as int],
            ));
        }
        i = i + 1;
    }
    let mut value = String::new();
    let mut k: usize = at + 1;
    proof {
        assert(value@ =~= chars@.subrange(at + 1, at + 1));
    }
    while k < chars.len()
        invariant
            at < k <= chars@.len(),
            value@ == chars@.subrange(at + 1, k as int),
        decreases chars.len() - k,
    {
        value.push(chars[k]);
        proof {
            assert(chars@.subrange(at + 1, k + 1) =~= chars@.subrange(at + 1, k as int).push(
                chars@[k as int],
            ));
        }
        k = k + 1;
    }
    Some((name, value))
}

/// The token in the value of a cookie header, where there is one.
pub fn session_token(cookies: Option<&str>) -> (r: Option<String>)
    ensures
        match (r, cookies) {
            (Some(token), Some(value)) => token_in_cookies(value@) == Some(token@),
            (None, Some(value)) => token_in_cookies(value@) is None,
            (None, None) => true,
            _ => false,
        },
{
    let value = match cookies {
        Some(value) => value,
        None => return None,
    };
    let parts = split(value, ';');
    let ghost all = split_parts(value@, ';');
    let mut i: usize = 0;
    while i < parts.len()
        invariant
            i <= parts@.len(),
            cookies == Some(value),
            all == split_parts(value@, ';'),
            views(parts@) == all,
            token_among(all, 0) == token_among(all, i as int),
        decreases parts.len() - i,
    {
        proof {
            assert(all[i as int] == parts@[i as int]@);
        }
        if let Some((name, token)) = split_name(&parts[i]) {
            if same(&name, "haruka_session") {
                return Some(token);
            }
        }
        i = i + 1;
    }
    None
}

/// The data key of the session that a visitor has.
pub fn session_dek(sessions: &Sessions, cookies: Option<&str>) -> (r: Option<Dek>)
    requires
        sessions.wf(),
    ensures
        r matches Some(dek) ==> {
            &&& cookies is Some
            &&& token_in_cookies(cookies->0@) is Some
            &&& sessions@.dom().contains(token_in_cookies(cookies->0@)->0)
            &&& sessions@[token_in_cookies(cookies->0@)->0] == dek@
        },
        r is None ==> cookies is None || token_in_cookies(cookies->0@) is None
            || !sessions@.dom().contains(token_in_cookies(cookies->0@)->0),
{
    match session_token(cookies) {
        Some(token) => sessions.get(&token),
        None => None,
    }
}

/// Ends the session that a visitor has.
pub fn remove_session(sessions: &mut Sessions, cookies: Option<&str>)
    requires
        old(sessions).wf(),
    ensures
        final(sessions).wf(),
        final(sessions)@ == (if cookies is Some && token_in_cookies(cookies->0@) is Some {
            old(sessions)@.remove(token_in_cookies(cookies->0@)->0)
        } else {
            old(sessions)@
        }),
{
    if let Some(token) = session_token(cookies) {
        sessions.remove(&token);
    }
}

/// Where a visitor without a session is sent: to unlock the ledger, or to set its password first.
pub fn unlock_target(has_meta: bool) -> (r: &'static str)
    ensures
        r@ == (if has_meta {
            "/unlock"@
        } else {
            "/setup"@
        }),
{
    if has_meta {
        "/unlock"
    } else {
        "/setup"
    }
}

/// A session is found again: a visitor who sends back the cookie that was set has its token.
pub proof fn cookie_gives_back_the_token(token: Seq<char>)
    requires
        is_session_token(token),
    ensures
        token_in_cookies("haruka_session="@ + token) == Some(token),
{
    let text = "haruka_session="@ + token;
    reveal_strlit("haruka_session=");
    reveal_strlit("haruka_session");
    assert("haruka_session="@.len() == 15);
    assert forall|i: int| 0 <= i < text.len() implies #[trigger] text[i] != ';' && !white_space(
        text[i],
    ) by {
        if i >= 15 {
            assert(text[i] == token[i - 15]);
            assert(is_url_char(token[i - 15]));
        }
    }
    whole_is_one_part(text, ';');
    assert(text[0] == 'h');
    assert(trim_front(text) == text);
    assert(trim_back(text) == text);
    assert forall|i: int| 0 <= i < 14 implies #[trigger] text[i] != '=' by {
        assert(text[i] == "haruka_session"@[i]);
    }
    assert(text[14] == '=');
    sign_is_first(text, '=', 0, 14);
    assert(text.subrange(0, 14) =~= "haruka_session"@);
    assert(text.subrange(15, text.len() as int) =~= token);
    assert(split_parts(text, ';')[0] == text);
}

/// A text without a separator has one part.
proof fn whole_is_one_part(s: Seq<char>, separator: char)
    requires
        forall|i: int| 0 <= i < s.len() ==> #[trigger] s[i] != separator,
    ensures
        split_parts(s, separator) == seq![s],
    decreases s.len(),
{
    if s.len() == 0 {
        assert(s =~= Seq::empty());
    } else {
        let front = s.drop_last();
        assert forall|i: int| 0 <= i < front.len() implies #[trigger] front[i] != separator by {
            assert(front[i] == s[i]);
        }
        whole_is_one_part(front, separator);
        assert(s.last() == s[s.len() - 1]);
        assert(front.push(s.last()) =~= s);
        assert(split_parts(s, separator) =~= seq![s]);
    }
}

proof fn sign_is_first(s: Seq<char>, c: char, from: int, at: int)
    requires
        0 <= from <= at < s.len(),
        s[at] == c,
        forall|i: int| from <= i < at ==> #[trigger] s[i] != c,
    ensures
        first_place(s, seq![c], from) == at,
    decreases at - from,
{
    if from < at {
        assert(s.subrange(from, from + 1)[0] != seq![c][0]);
        sign_is_first(s, c, from + 1, at);
    } else {
        assert(s.subrange(at, at + 1) =~= seq![c]);
    }
}

} // verus!

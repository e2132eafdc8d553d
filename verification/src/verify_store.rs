//! The ephemeral verification store: short-lived entries holding a captcha
//! answer and, later, an emailed verification code, keyed by a
//! client-supplied session id.  Entries expire after five minutes, and a
//! logically expired entry is treated as absent whatever the sweep timing.

use vstd::prelude::*;

verus! {

/// How long a verification entry lives, in milliseconds.
pub const VERIFY_TTL_MILLIS: i64 = 300_000;

/// The least interval between two verification emails, in milliseconds.
pub const RESEND_INTERVAL_MILLIS: i64 = 60_000;

/// One verification entry: the captcha answer issued under a session
/// key, and, once a code was sent, the code, the address it went to and
/// the send time.
#[derive(Debug)]
pub struct VerifyEntry {
    pub key: String,
    pub captcha: String,
    pub code: Option<String>,
    pub email: Option<String>,
    pub send_time: Option<i64>,
    pub expire: i64,
}

impl Clone for VerifyEntry {
    fn clone(&self) -> (r: Self)
        ensures
            r == *self,
    {
        VerifyEntry {
            key: self.key.clone(),
            captcha: self.captcha.clone(),
            code: match &self.code {
                Some(c) => Some(c.clone()),
                None => None,
            },
            email: match &self.email {
                Some(e) => Some(e.clone()),
                None => None,
            },
            send_time: self.send_time,
            expire: self.expire,
        }
    }
}

/// Some entry carries this key.
pub open spec fn key_taken(es: Seq<VerifyEntry>, key: Seq<char>) -> bool {
    exists|i: int| 0 <= i < es.len() && es[i].key@ == key
}

/// The index of the entry carrying this key.
pub open spec fn key_index(es: Seq<VerifyEntry>, key: Seq<char>) -> int {
    choose|i: int| 0 <= i < es.len() && es[i].key@ == key
}

/// The store without the entries under this key.
pub open spec fn remove_key(es: Seq<VerifyEntry>, key: Seq<char>) -> Seq<VerifyEntry>
    decreases es.len(),
{
    if es.len() == 0 {
        Seq::empty()
    } else {
        let prefix = remove_key(es.drop_last(), key);
        if es.last().key@ == key {
            prefix
        } else {
            prefix.push(es.last())
        }
    }
}

/// The entries still live at `now`.
pub open spec fn live_entries(es: Seq<VerifyEntry>, now: i64) -> Seq<VerifyEntry>
    decreases es.len(),
{
    if es.len() == 0 {
        Seq::empty()
    } else {
        let prefix = live_entries(es.drop_last(), now);
        if es.last().expire > now {
            prefix.push(es.last())
        } else {
            prefix
        }
    }
}

/// Dropping entries under one key keeps everything else, keeps distinct
/// keys distinct, and leaves no entry under that key.
proof fn lemma_remove_key_facts(es: Seq<VerifyEntry>, key: Seq<char>)
    ensures
        forall|j: int|
            0 <= j < remove_key(es, key).len() ==> (exists|o: int|
                0 <= o < es.len() && #[trigger] remove_key(es, key)[j] == es[o]),
        (forall|i: int, j: int| 0 <= i < j < es.len() ==> es[i].key@ != es[j].key@) ==> (forall|
            i: int,
            j: int,
        |
            0 <= i < j < remove_key(es, key).len() ==> remove_key(es, key)[i].key@ != remove_key(
                es,
                key,
            )[j].key@),
        forall|j: int| 0 <= j < remove_key(es, key).len() ==> remove_key(es, key)[j].key@ != key,
    decreases es.len(),
{
    if es.len() > 0 {
        let rest = es.drop_last();
        let out = remove_key(es, key);
        let prefix = remove_key(rest, key);
        lemma_remove_key_facts(rest, key);
        assert forall|j: int| 0 <= j < out.len() implies (exists|o: int|
            0 <= o < es.len() && #[trigger] out[j] == es[o]) by {
            if j < prefix.len() {
                let o = choose|o: int| 0 <= o < rest.len() && prefix[j] == rest[o];
                assert(out[j] == es[o]);
            } else {
                assert(out[j] == es[es.len() - 1]);
            }
        }
        if forall|i: int, j: int| 0 <= i < j < es.len() ==> es[i].key@ != es[j].key@ {
            assert forall|i: int, j: int| 0 <= i < j < out.len() implies out[i].key@
                != out[j].key@ by {
                if j == prefix.len() && out.len() > prefix.len() {
                    let o = choose|o: int| 0 <= o < rest.len() && prefix[i] == rest[o];
                    assert(out[i] == es[o]);
                    assert(out[j] == es[es.len() - 1]);
                }
            }
        }
    }
}

/// What survives the sweep comes from the original store, and distinct
/// keys stay distinct.
proof fn lemma_live_entries_facts(es: Seq<VerifyEntry>, now: i64)
    ensures
        forall|j: int|
            0 <= j < live_entries(es, now).len() ==> (exists|o: int|
                0 <= o < es.len() && #[trigger] live_entries(es, now)[j] == es[o]),
        (forall|i: int, j: int| 0 <= i < j < es.len() ==> es[i].key@ != es[j].key@) ==> (forall|
            i: int,
            j: int,
        |
            0 <= i < j < live_entries(es, now).len() ==> live_entries(es, now)[i].key@
                != live_entries(es, now)[j].key@),
    decreases es.len(),
{
    if es.len() > 0 {
        let rest = es.drop_last();
        let out = live_entries(es, now);
        let prefix = live_entries(rest, now);
        lemma_live_entries_facts(rest, now);
        assert forall|j: int| 0 <= j < out.len() implies (exists|o: int|
            0 <= o < es.len() && #[trigger] out[j] == es[o]) by {
            if j < prefix.len() {
                let o = choose|o: int| 0 <= o < rest.len() && prefix[j] == rest[o];
                assert(out[j] == es[o]);
            } else {
                assert(out[j] == es[es.len() - 1]);
            }
        }
        if forall|i: int, j: int| 0 <= i < j < es.len() ==> es[i].key@ != es[j].key@ {
            assert forall|i: int, j: int| 0 <= i < j < out.len() implies out[i].key@
                != out[j].key@ by {
                if j == prefix.len() && out.len() > prefix.len() {
                    let o = choose|o: int| 0 <= o < rest.len() && prefix[i] == rest[o];
                    assert(out[i] == es[o]);
                    assert(out[j] == es[es.len() - 1]);
                }
            }
        }
    }
}

/// What recording an emailed code did: the entry under the key carries
/// the code, the address and the send time, its life extended five
/// minutes from `now`; every other entry is untouched.
pub open spec fn code_recorded(
    pre: Seq<VerifyEntry>,
    post: Seq<VerifyEntry>,
    key: Seq<char>,
    code: String,
    email: String,
    now: i64,
) -> bool {
    &&& post.len() == pre.len()
    &&& forall|i: int|
        0 <= i < pre.len() ==> post[i] == ({
            let e = pre[i];
            if e.key@ == key {
                VerifyEntry {
                    key: e.key,
                    captcha: e.captcha,
                    code: Some(code),
                    email: Some(email),
                    send_time: Some(now),
                    expire: (now + VERIFY_TTL_MILLIS) as i64,
                }
            } else {
                e
            }
        })
}

/// The in-memory verification store.
pub struct VerifyStore {
    pub entries: Vec<VerifyEntry>,
}

impl VerifyStore {
    /// Session keys identify entries, and recorded send times are
    /// nonnegative epoch instants.
    pub open spec fn wf(self) -> bool {
        &&& forall|i: int, j: int|
            0 <= i < j < self.entries@.len() ==> self.entries@[i].key@ != self.entries@[j].key@
        &&& forall|i: int|
            0 <= i < self.entries@.len() && (#[trigger] self.entries@[i]).send_time is Some
                ==> self.entries@[i].send_time->0 >= 0
    }

    /// An empty store.
    pub fn new() -> (r: VerifyStore)
        ensures
            r.wf(),
            r.entries@.len() == 0,
    {
        VerifyStore { entries: Vec::new() }
    }

    /// File a fresh captcha answer under a session key, displacing any
    /// entry already there; the entry lives five minutes from `now`.
    #[verifier::loop_isolation(false)]
    pub fn put_captcha(&mut self, key: String, captcha: String, now: i64)
        requires
            old(self).wf(),
            now <= i64::MAX - VERIFY_TTL_MILLIS,
        ensures
            final(self).wf(),
            final(self).entries@ == remove_key(old(self).entries@, key@).push(
                final(self).entries@.last(),
            ),
            ({
                let e = final(self).entries@.last();
                &&& e.key == key
                &&& e.captcha == captcha
                &&& e.code is None
                &&& e.email is None
                &&& e.send_time is None
                &&& e.expire == now + VERIFY_TTL_MILLIS
            }),
    {
        let ghost pre = *self;
        let kept = remove_key_vec(&self.entries, &key);
        self.entries = kept;
        let entry = VerifyEntry {
            key,
            captcha,
            code: None,
            email: None,
            send_time: None,
            expire: now + VERIFY_TTL_MILLIS,
        };
        self.entries.push(entry);
        proof {
            let kept_seq = remove_key(pre.entries@, self.entries@.last().key@);
            lemma_remove_key_facts(pre.entries@, self.entries@.last().key@);
            assert forall|i: int, j: int|
                0 <= i < j < self.entries@.len() implies self.entries@[i].key@
                != self.entries@[j].key@ by {
                if j == self.entries@.len() - 1 {
                    assert(self.entries@[i] == kept_seq[i]);
                }
            }
            assert forall|i: int|
                0 <= i < self.entries@.len() && (#[trigger] self.entries@[i]).send_time
                    is Some implies self.entries@[i].send_time->0 >= 0 by {
                if i < self.entries@.len() - 1 {
                    let o = choose|o: int|
                        0 <= o < pre.entries@.len() && kept_seq[i] == pre.entries@[o];
                    assert(self.entries@[i] == pre.entries@[o]);
                }
            }
        }
    }

    /// The live entry under this key; a logically expired entry is
    /// absent whatever the sweep timing.
    #[verifier::loop_isolation(false)]
    pub fn get(&self, key: &String, now: i64) -> (r: Option<VerifyEntry>)
        requires
            self.wf(),
        ensures
            r is Some <==> (key_taken(self.entries@, key@) && self.entries@[key_index(
                self.entries@,
                key@,
            )].expire > now),
            r matches Some(e) ==> e == self.entries@[key_index(self.entries@, key@)] && e.key@
                == key@ && e.expire > now,
    {
        let mut k: usize = 0;
        while k < self.entries.len()
            invariant
                k <= self.entries@.len(),
                forall|j: int| 0 <= j < k ==> self.entries@[j].key@ != key@,
            decreases self.entries@.len() - k,
        {
            if self.entries[k].key == *key {
                proof {
                    let ci = key_index(self.entries@, key@);
                    assert(self.entries@[ci].key@ == key@);
                    assert(ci == k as int);
                }
                if self.entries[k].expire > now {
                    return Some(self.entries[k].clone());
                } else {
                    return None;
                }
            }
            k = k + 1;
        }
        None
    }

    /// Drop the entry under this key; absence is not an error.
    pub fn destroy(&mut self, key: &String)
        requires
            old(self).wf(),
        ensures
            final(self).wf(),
            final(self).entries@ == remove_key(old(self).entries@, key@),
            !key_taken(final(self).entries@, key@),
    {
        let ghost pre = *self;
        let kept = remove_key_vec(&self.entries, key);
        self.entries = kept;
        proof {
            lemma_remove_key_facts(pre.entries@, key@);
            assert forall|i: int|
                0 <= i < self.entries@.len() && (#[trigger] self.entries@[i]).send_time
                    is Some implies self.entries@[i].send_time->0 >= 0 by {
                let o = choose|o: int|
                    0 <= o < pre.entries@.len() && remove_key(pre.entries@, key@)[i]
                        == pre.entries@[o];
                assert(self.entries@[i] == pre.entries@[o]);
            }
        }
    }

    /// Record an emailed verification code on the live entry under this
    /// key: the code, the address it went to and the send time, with the
    /// entry's life extended five minutes from `now`.
    #[verifier::loop_isolation(false)]
    pub fn set_code(&mut self, key: &String, code: String, email: String, now: i64)
        requires
            old(self).wf(),
            0 <= now <= i64::MAX - VERIFY_TTL_MILLIS,
        ensures
            final(self).wf(),
            code_recorded(old(self).entries@, final(self).entries@, key@, code, email, now),
    {
        let ghost pre = *self;
        let mut k: usize = 0;
        while k < self.entries.len()
            invariant
                k <= self.entries@.len(),
                self.entries@.len() == pre.entries@.len(),
                forall|j: int|
                    0 <= j < k ==> self.entries@[j] == ({
                        let e = pre.entries@[j];
                        if e.key@ == key@ {
                            VerifyEntry {
                                key: e.key,
                                captcha: e.captcha,
                                code: Some(code),
                                email: Some(email),
                                send_time: Some(now),
                                expire: (now + VERIFY_TTL_MILLIS) as i64,
                            }
                        } else {
                            e
                        }
                    }),
                forall|j: int|
                    k <= j < self.entries@.len() ==> self.entries@[j] == pre.entries@[j],
            decreases self.entries@.len() - k,
        {
            if self.entries[k].key == *key {
                let mut row = self.entries[k].clone();
                row.code = Some(code.clone());
                row.email = Some(email.clone());
                row.send_time = Some(now);
                row.expire = now + VERIFY_TTL_MILLIS;
                self.entries[k] = row;
            }
            k = k + 1;
        }
        proof {
            assert forall|i: int, j: int|
                0 <= i < j < self.entries@.len() implies self.entries@[i].key@
                != self.entries@[j].key@ by {
                assert(self.entries@[i].key@ == pre.entries@[i].key@);
                assert(self.entries@[j].key@ == pre.entries@[j].key@);
            }
        }
    }

    /// The periodic sweep: drop every entry already expired at `now`.
    pub fn sweep(&mut self, now: i64)
        requires
            old(self).wf(),
        ensures
            final(self).wf(),
            final(self).entries@ == live_entries(old(self).entries@, now),
    {
        let ghost pre = *self;
        let kept = live_entries_vec(&self.entries, now);
        self.entries = kept;
        proof {
            lemma_live_entries_facts(pre.entries@, now);
            assert forall|i: int|
                0 <= i < self.entries@.len() && (#[trigger] self.entries@[i]).send_time
                    is Some implies self.entries@[i].send_time->0 >= 0 by {
                let o = choose|o: int|
                    0 <= o < pre.entries@.len() && live_entries(pre.entries@, now)[i]
                        == pre.entries@[o];
                assert(self.entries@[i] == pre.entries@[o]);
            }
        }
    }
}

/// Drop the entries under this key, keeping everything else.
#[verifier::loop_isolation(false)]
fn remove_key_vec(es: &Vec<VerifyEntry>, key: &String) -> (r: Vec<VerifyEntry>)
    ensures
        r@ == remove_key(es@, key@),
{
    let mut out: Vec<VerifyEntry> = Vec::new();
    let mut k: usize = 0;
    while k < es.len()
        invariant
            k <= es@.len(),
            out@ == remove_key(es@.take(k as int), key@),
        decreases es@.len() - k,
    {
        proof {
            assert(es@.take(k as int + 1).drop_last() =~= es@.take(k as int));
        }
        if !(es[k].key == *key) {
            let row = es[k].clone();
            out.push(row);
        }
        k = k + 1;
    }
    proof {
        assert(es@.take(es@.len() as int) =~= es@);
    }
    out
}

/// Keep only the entries still live at `now`.
#[verifier::loop_isolation(false)]
fn live_entries_vec(es: &Vec<VerifyEntry>, now: i64) -> (r: Vec<VerifyEntry>)
    ensures
        r@ == live_entries(es@, now),
{
    let mut out: Vec<VerifyEntry> = Vec::new();
    let mut k: usize = 0;
    while k < es.len()
        invariant
            k <= es@.len(),
            out@ == live_entries(es@.take(k as int), now),
        decreases es@.len() - k,
    {
        proof {
            assert(es@.take(k as int + 1).drop_last() =~= es@.take(k as int));
        }
        if es[k].expire > now {
            let row = es[k].clone();
            out.push(row);
        }
        k = k + 1;
    }
    proof {
        assert(es@.take(es@.len() as int) =~= es@);
    }
    out
}

} // verus!

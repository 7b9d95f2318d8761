//! Decisions of mailbox synchronisation: which messages to fetch, in which batches,
//! which to store, and how the sync watermark of a mailbox moves.

use vstd::prelude::*;

use crate::schema::Mailbox;
use crate::text::{
    ascii_lower, concat, decimal, decimal_text, eq_ignore_ascii_case, owned, string_from_chars, chars_of,
};

verus! {

/// The UID range requested from the server for a mailbox whose last synchronised UID
/// is `last_uid`: `<last_uid + 1>:*` once something was synchronised, else `1:*`.
pub open spec fn fetch_range_text(last_uid: i64) -> Seq<char> {
    if last_uid > 0 {
        decimal((last_uid + 1) as nat) + ":*"@
    } else {
        "1:*"@
    }
}

/// The UID range to request (`last_uid` below `i64::MAX`, since the next UID must be
/// representable).
pub fn fetch_range(last_uid: i64) -> (r: String)
    requires
        last_uid < i64::MAX,
    ensures
        r@ == fetch_range_text(last_uid),
{
    if last_uid > 0 {
        let next: u64 = (last_uid + 1) as u64;
        let n = decimal_text(next);
        concat(n.as_str(), ":*")
    } else {
        owned("1:*")
    }
}

/// The UIDs, in order, of the fetched entries that carry a UID above `last_uid`.
pub open spec fn newer_uids(fetched: Seq<Option<u32>>, last_uid: i64) -> Seq<u32>
    decreases fetched.len(),
{
    if fetched.len() == 0 {
        Seq::empty()
    } else {
        let prev = newer_uids(fetched.drop_last(), last_uid);
        match fetched.last() {
            Some(u) => if (u as int) > last_uid {
                prev.push(u)
            } else {
                prev
            },
            None => prev,
        }
    }
}

/// The UIDs still to download among the fetched entries: every one lies above the
/// watermark.
pub fn new_uids(fetched: &Vec<Option<u32>>, last_uid: i64) -> (r: Vec<u32>)
    ensures
        r@ == newer_uids(fetched@, last_uid),
        forall|i: int| 0 <= i < r@.len() ==> (#[trigger] r@[i] as int) > last_uid,
{
    let mut r: Vec<u32> = Vec::new();
    let mut i: usize = 0;
    while i < fetched.len()
        invariant
            i <= fetched@.len(),
            r@ == newer_uids(fetched@.take(i as int), last_uid),
            forall|k: int| 0 <= k < r@.len() ==> (#[trigger] r@[k] as int) > last_uid,
        decreases fetched@.len() - i,
    {
        assert(fetched@.take(i + 1).drop_last() =~= fetched@.take(i as int));
        assert(fetched@.take(i + 1).last() == fetched@[i as int]);
        if let Some(u) = fetched[i] {
            if (u as i64) > last_uid {
                r.push(u);
            }
        }
        i = i + 1;
    }
    assert(fetched@.take(i as int) =~= fetched@);
    r
}

/// The UIDs written as a comma-separated list.
pub open spec fn uid_list_text(uids: Seq<u32>) -> Seq<char>
    decreases uids.len(),
{
    if uids.len() == 0 {
        Seq::empty()
    } else if uids.len() == 1 {
        decimal(uids[0] as nat)
    } else {
        uid_list_text(uids.drop_last()) + ","@ + decimal(uids.last() as nat)
    }
}

/// How many messages are downloaded per request.
pub const BATCH_SIZE: usize = 20;

/// The UIDs in consecutive batches of `BATCH_SIZE` (the last one possibly shorter),
/// each written as a comma-separated list.
pub open spec fn uid_batch_texts(uids: Seq<u32>) -> Seq<Seq<char>>
    decreases uids.len(),
{
    if uids.len() == 0 {
        Seq::empty()
    } else if uids.len() <= BATCH_SIZE {
        seq![uid_list_text(uids)]
    } else {
        seq![uid_list_text(uids.take(BATCH_SIZE as int))] + uid_batch_texts(uids.skip(BATCH_SIZE as int))
    }
}

/// `uids[start..end]` written as a comma-separated list.
fn uid_list(uids: &Vec<u32>, start: usize, end: usize) -> (r: String)
    requires
        start <= end <= uids@.len(),
    ensures
        r@ == uid_list_text(uids@.subrange(start as int, end as int)),
{
    let mut out: Vec<char> = Vec::new();
    let mut k: usize = start;
    while k < end
        invariant
            start <= k <= end <= uids@.len(),
            out@ == uid_list_text(uids@.subrange(start as int, k as int)),
        decreases end - k,
    {
        let ghost part = uids@.subrange(start as int, k + 1);
        assert(part.drop_last() =~= uids@.subrange(start as int, k as int));
        assert(part.last() == uids@[k as int]);
        if k > start {
            out.push(',');
        }
        let d = decimal_text(uids[k] as u64);
        let dc = chars_of(d.as_str());
        let ghost before = out@;
        let mut j: usize = 0;
        while j < dc.len()
            invariant
                j <= dc@.len(),
                out@ == before + dc@.take(j as int),
            decreases dc@.len() - j,
        {
            out.push(dc[j]);
            j = j + 1;
            assert(out@ =~= before + dc@.take(j as int));
        }
        assert(dc@.take(j as int) =~= dc@);
        proof {
            if k > start {
                assert(before == uid_list_text(part.drop_last()) + ","@) by {
                    reveal_strlit(",");
                    assert(","@ =~= seq![',']);
                    assert(before =~= uid_list_text(uids@.subrange(start as int, k as int)) + ","@);
                }
            } else {
                assert(part.len() == 1);
                assert(before =~= Seq::<char>::empty());
            }
        }
        k = k + 1;
        assert(out@ =~= uid_list_text(uids@.subrange(start as int, k as int)));
    }
    string_from_chars(&out)
}

proof fn lemma_batches_step(uids: Seq<u32>, i: int)
    requires
        0 <= i < uids.len(),
    ensures
        uid_batch_texts(uids.skip(i)) == seq![
            uid_list_text(uids.subrange(i, if i + BATCH_SIZE < uids.len() { i + BATCH_SIZE } else { uids.len() as int })),
        ] + uid_batch_texts(uids.skip(if i + BATCH_SIZE < uids.len() { i + BATCH_SIZE } else { uids.len() as int })),
{
    let s = uids.skip(i);
    if i + BATCH_SIZE < uids.len() {
        assert(s.take(BATCH_SIZE as int) =~= uids.subrange(i, i + BATCH_SIZE));
        assert(s.skip(BATCH_SIZE as int) =~= uids.skip(i + BATCH_SIZE));
    } else {
        assert(s =~= uids.subrange(i, uids.len() as int));
        assert(uids.skip(uids.len() as int) =~= Seq::<u32>::empty());
        assert(seq![uid_list_text(s)] + Seq::<Seq<char>>::empty() =~= seq![uid_list_text(s)]);
    }
}

/// The download requests for the new UIDs: batches of `BATCH_SIZE` UIDs, each as a
/// comma-separated list (`chunks(20)` joined by `,`).
pub fn uid_batches(uids: &Vec<u32>) -> (r: Vec<String>)
    ensures
        r@.map_values(|s: String| s@) == uid_batch_texts(uids@),
{
    let mut r: Vec<String> = Vec::new();
    let mut i: usize = 0;
    assert(uids@.skip(0) =~= uids@);
    while i < uids.len()
        invariant
            i <= uids@.len(),
            r@.map_values(|s: String| s@) + uid_batch_texts(uids@.skip(i as int)) == uid_batch_texts(uids@),
        decreases uids@.len() - i,
    {
        let end: usize = if uids.len() - i > BATCH_SIZE {
            i + BATCH_SIZE
        } else {
            uids.len()
        };
        proof {
            lemma_batches_step(uids@, i as int);
        }
        let batch = uid_list(uids, i, end);
        let ghost before = r@.map_values(|s: String| s@);
        r.push(batch);
        assert(r@.map_values(|s: String| s@) =~= before.push(batch@));
        assert(before.push(batch@) + uid_batch_texts(uids@.skip(end as int)) =~= before + (seq![batch@]
            + uid_batch_texts(uids@.skip(end as int))));
        i = end;
    }
    assert(uids@.skip(i as int) =~= Seq::<u32>::empty());
    assert(r@.map_values(|s: String| s@) + Seq::<Seq<char>>::empty() =~= r@.map_values(|s: String| s@));
    r
}

/// Progress of one mailbox's synchronisation: the last UID synchronised before this
/// run, the highest UID stored in this run, and how many messages were stored.
#[derive(Debug, PartialEq, Eq)]
pub struct MailboxProgress {
    pub last_uid: i64,
    pub max_uid: i64,
    pub new_count: usize,
}

/// The UID a downloaded message carries, 0 when the server gave none.
pub open spec fn uid_value(uid: Option<u32>) -> i64 {
    match uid {
        Some(v) => v as i64,
        None => 0,
    }
}

/// Progress after one downloaded message: a UID above the starting watermark raises
/// the highest UID seen; anything else leaves the progress as it was.
pub open spec fn accept_step(p: MailboxProgress, uid: Option<u32>) -> MailboxProgress {
    let u = uid_value(uid);
    if u <= p.last_uid {
        p
    } else {
        MailboxProgress { max_uid: if u > p.max_uid { u } else { p.max_uid }, ..p }
    }
}

/// Progress after the downloaded messages `uids`, in order.
pub open spec fn run_progress(p: MailboxProgress, uids: Seq<Option<u32>>) -> MailboxProgress
    decreases uids.len(),
{
    if uids.len() == 0 {
        p
    } else {
        accept_step(run_progress(p, uids.drop_last()), uids.last())
    }
}

/// The watermark to record after progress `p` (what `new_watermark` returns).
pub open spec fn watermark_of(p: MailboxProgress) -> Option<i64> {
    if p.max_uid > p.last_uid {
        Some(p.max_uid)
    } else {
        None
    }
}

impl MailboxProgress {
    /// The highest UID seen never lies below the starting watermark.
    pub open spec fn wf(&self) -> bool {
        self.max_uid >= self.last_uid
    }

    /// A run starting from watermark `last_uid`.
    pub fn start(last_uid: i64) -> (p: MailboxProgress)
        ensures
            p.wf(),
            p == (MailboxProgress { last_uid, max_uid: last_uid, new_count: 0 }),
    {
        MailboxProgress { last_uid, max_uid: last_uid, new_count: 0 }
    }

    /// A downloaded message with UID `uid` (0 when the server gave none): returns the
    /// UID to store, or `None` when it is not newer than the watermark and is skipped.
    pub fn accept(&mut self, uid: Option<u32>) -> (r: Option<i64>)
        requires
            old(self).wf(),
        ensures
            final(self).wf(),
            *final(self) == accept_step(*old(self), uid),
            r == (if uid_value(uid) <= old(self).last_uid {
                None::<i64>
            } else {
                Some(uid_value(uid))
            }),
    {
        let u: i64 = match uid {
            Some(v) => v as i64,
            None => 0,
        };
        if u <= self.last_uid {
            return None;
        }
        if u > self.max_uid {
            self.max_uid = u;
        }
        Some(u)
    }

    /// One more message was stored.
    pub fn record_stored(&mut self)
        requires
            old(self).new_count < usize::MAX,
        ensures
            *final(self) == (MailboxProgress { new_count: (old(self).new_count + 1) as usize, ..*old(self) }),
    {
        self.new_count = self.new_count + 1;
    }

    /// The new watermark to record after the run: the highest stored UID when it lies
    /// above the old watermark, else nothing. The watermark never moves backwards.
    pub fn new_watermark(&self) -> (r: Option<i64>)
        requires
            self.wf(),
        ensures
            r == watermark_of(*self),
            r matches Some(w) ==> w > self.last_uid,
    {
        if self.max_uid > self.last_uid {
            Some(self.max_uid)
        } else {
            None
        }
    }
}

/// The identifier of mailbox `name` of account `account_id`: `<account_id>:<name>`.
pub open spec fn mailbox_id_text(account_id: Seq<char>, name: Seq<char>) -> Seq<char> {
    account_id + ":"@ + name
}

/// The identifier of a mailbox.
pub fn mailbox_id_for(account_id: &str, name: &str) -> (r: String)
    ensures
        r@ == mailbox_id_text(account_id@, name@),
{
    let a = concat(account_id, ":");
    concat(a.as_str(), name)
}

/// The record of a mailbox found on the server (or created locally): identifier from
/// account and name, path equal to the name, never synchronised, nothing unread.
pub fn discovered_mailbox(account_id: &str, name: &str) -> (m: Mailbox)
    ensures
        m.id@ == mailbox_id_text(account_id@, name@),
        m.account_id@ == account_id@,
        m.name@ == name@,
        m.path@ == name@,
        m.uid_validity is None,
        m.last_synced_uid == Some(0i64),
        m.unread_count == Some(0i64),
{
    Mailbox {
        id: mailbox_id_for(account_id, name),
        account_id: owned(account_id),
        name: owned(name),
        path: owned(name),
        uid_validity: None,
        last_synced_uid: Some(0),
        unread_count: Some(0),
    }
}

/// Position of the first `c` in `s`.
pub open spec fn first_index_of(s: Seq<char>, c: char) -> Option<int>
    decreases s.len(),
{
    if s.len() == 0 {
        None
    } else if s[0] == c {
        Some(0)
    } else {
        match first_index_of(s.drop_first(), c) {
            Some(i) => Some(i + 1),
            None => None,
        }
    }
}

/// The mailbox name in a mailbox identifier: the second `:`-separated field
/// (`split(':').nth(1)`), or the whole identifier when it holds no `:`.
pub open spec fn mailbox_name_text(id: Seq<char>) -> Seq<char> {
    match first_index_of(id, ':') {
        None => id,
        Some(i) => {
            let rest = id.skip(i + 1);
            match first_index_of(rest, ':') {
                Some(j) => rest.take(j),
                None => rest,
            }
        },
    }
}

proof fn lemma_first_index_of(s: Seq<char>, c: char)
    ensures
        match first_index_of(s, c) {
            Some(i) => 0 <= i < s.len() && s[i] == c && forall|j: int| 0 <= j < i ==> s[j] != c,
            None => forall|j: int| 0 <= j < s.len() ==> s[j] != c,
        },
    decreases s.len(),
{
    if s.len() > 0 {
        lemma_first_index_of(s.drop_first(), c);
        if s[0] != c {
            match first_index_of(s.drop_first(), c) {
                Some(i) => {
                    assert forall|j: int| 0 <= j < i + 1 implies s[j] != c by {
                        if j > 0 {
                            assert(s[j] == s.drop_first()[j - 1]);
                        }
                    }
                },
                None => {
                    assert forall|j: int| 0 <= j < s.len() implies s[j] != c by {
                        if j > 0 {
                            assert(s[j] == s.drop_first()[j - 1]);
                        }
                    }
                },
            }
        }
    }
}

proof fn lemma_first_index_is(s: Seq<char>, c: char, i: int)
    requires
        0 <= i <= s.len(),
        i < s.len() ==> s[i] == c,
        forall|j: int| 0 <= j < i ==> s[j] != c,
    ensures
        first_index_of(s, c) == if i < s.len() { Some(i) } else { None::<int> },
{
    lemma_first_index_of(s, c);
    match first_index_of(s, c) {
        Some(k) => {
            if k < i {
            } else if k > i {
                assert(s[i] != c);
            }
        },
        None => {
            if i < s.len() {
                assert(s[i] == c);
            }
        },
    }
}

fn find_char(s: &Vec<char>, from: usize, c: char) -> (r: usize)
    requires
        from <= s@.len(),
    ensures
        from <= r <= s@.len(),
        r < s@.len() ==> s@[r as int] == c,
        forall|j: int| from <= j < r ==> s@[j] != c,
{
    let mut k = from;
    while k < s.len() && s[k] != c
        invariant
            from <= k <= s@.len(),
            forall|j: int| from <= j < k ==> s@[j] != c,
        decreases s@.len() - k,
    {
        k = k + 1;
    }
    k
}

/// The mailbox name of a mailbox identifier.
pub fn mailbox_name_from_id(id: &str) -> (r: String)
    ensures
        r@ == mailbox_name_text(id@),
{
    let cs = chars_of(id);
    let i = find_char(&cs, 0, ':');
    proof {
        lemma_first_index_is(id@, ':', i as int);
    }
    if i == cs.len() {
        return owned(id);
    }
    let j = find_char(&cs, i + 1, ':');
    let ghost rest = id@.skip(i + 1);
    proof {
        assert forall|q: int| 0 <= q < j - (i + 1) implies rest[q] != ':' by {
            assert(rest[q] == id@[q + i + 1]);
        }
        if j < cs@.len() {
            assert(rest[j - (i + 1)] == id@[j as int]);
        }
        lemma_first_index_is(rest, ':', j - (i + 1));
    }
    let mut out: Vec<char> = Vec::new();
    let mut k = i + 1;
    while k < j
        invariant
            cs@ == id@,
            i + 1 <= k <= j <= cs@.len(),
            out@ == id@.subrange(i + 1, k as int),
        decreases j - k,
    {
        out.push(cs[k]);
        k = k + 1;
        assert(out@ =~= id@.subrange(i + 1, k as int));
    }
    assert(rest.take(j - (i + 1)) =~= id@.subrange(i + 1, j as int));
    assert(j == cs@.len() ==> rest =~= id@.subrange(i + 1, j as int));
    string_from_chars(&out)
}

/// Reading the mailbox name back from an identifier gives the name it was made from,
/// when neither account identifier nor name contains `:`.
pub proof fn law_mailbox_name_round_trip(account_id: Seq<char>, name: Seq<char>)
    requires
        !account_id.contains(':'),
        !name.contains(':'),
    ensures
        mailbox_name_text(mailbox_id_text(account_id, name)) == name,
{
    let id = mailbox_id_text(account_id, name);
    reveal_strlit(":");
    assert(":"@ =~= seq![':']);
    assert(id[account_id.len() as int] == ':');
    assert forall|j: int| 0 <= j < account_id.len() implies id[j] != ':' by {
        assert(id[j] == account_id[j]);
        if account_id[j] == ':' {
            assert(account_id.contains(':'));
        }
    }
    lemma_first_index_is(id, ':', account_id.len() as int);
    let rest = id.skip(account_id.len() as int + 1);
    assert(rest =~= name);
    assert forall|j: int| 0 <= j < name.len() implies rest[j] != ':' by {
        if name[j] == ':' {
            assert(name.contains(':'));
        }
    }
    lemma_first_index_is(rest, ':', name.len() as int);
}

/// Position of the first mailbox named `INBOX`, ignoring ASCII case.
pub fn find_inbox(mailbox_ids: &Vec<(String, String)>) -> (r: Option<usize>)
    ensures
        match r {
            Some(i) => i < mailbox_ids@.len() && ascii_lower(mailbox_ids@[i as int].1@) == ascii_lower("INBOX"@)
                && forall|j: int| 0 <= j < i ==> ascii_lower(#[trigger] mailbox_ids@[j].1@) != ascii_lower("INBOX"@),
            None => forall|j: int| 0 <= j < mailbox_ids@.len() ==> ascii_lower(#[trigger] mailbox_ids@[j].1@) != ascii_lower("INBOX"@),
        },
{
    let mut i: usize = 0;
    while i < mailbox_ids.len()
        invariant
            i <= mailbox_ids@.len(),
            forall|j: int| 0 <= j < i ==> ascii_lower(#[trigger] mailbox_ids@[j].1@) != ascii_lower("INBOX"@),
        decreases mailbox_ids@.len() - i,
    {
        if eq_ignore_ascii_case(mailbox_ids[i].1.as_str(), "INBOX") {
            return Some(i);
        }
        i = i + 1;
    }
    None
}


/// Over a whole run from watermark `last_uid`, whatever messages were downloaded (and
/// whether or not storing them succeeded, which changes only the count): the
/// watermark recorded is the highest UID above `last_uid` among them, or nothing when
/// there is none; it never lies at or below `last_uid`; and it never decreases as
/// more messages arrive.
pub proof fn law_watermark_over_run(last_uid: i64, uids: Seq<Option<u32>>)
    ensures
        ({
            let start = MailboxProgress { last_uid, max_uid: last_uid, new_count: 0 };
            let end = run_progress(start, uids);
            &&& end.last_uid == last_uid
            &&& end.wf()
            &&& forall|i: int| 0 <= i < uids.len() && uid_value(#[trigger] uids[i]) > last_uid ==> end.max_uid >= uid_value(uids[i])
            &&& (watermark_of(end) is None <==> forall|i: int| 0 <= i < uids.len() ==> uid_value(#[trigger] uids[i]) <= last_uid)
            &&& watermark_of(end) matches Some(w) ==> w > last_uid && exists|i: int| 0 <= i < uids.len() && uid_value(#[trigger] uids[i]) == w
            &&& forall|k: int| 0 <= k <= uids.len() ==> (#[trigger] run_progress(start, uids.take(k))).max_uid <= end.max_uid
        }),
    decreases uids.len(),
{
    let start = MailboxProgress { last_uid, max_uid: last_uid, new_count: 0 };
    if uids.len() > 0 {
        let init = uids.drop_last();
        law_watermark_over_run(last_uid, init);
        let mid = run_progress(start, init);
        let end = run_progress(start, uids);
        assert forall|i: int| 0 <= i < uids.len() && uid_value(#[trigger] uids[i]) > last_uid implies end.max_uid >= uid_value(uids[i]) by {
            if i < init.len() {
                assert(init[i] == uids[i]);
            }
        }
        if watermark_of(end) is None {
            assert forall|i: int| 0 <= i < uids.len() implies uid_value(#[trigger] uids[i]) <= last_uid by {
                if i < init.len() {
                    assert(init[i] == uids[i]);
                }
            }
        }
        if end.max_uid > last_uid {
            if end.max_uid == mid.max_uid {
                let j = choose|j: int| 0 <= j < init.len() && uid_value(#[trigger] init[j]) == mid.max_uid;
                assert(uids[j] == init[j]);
            } else {
                assert(uid_value(uids[uids.len() - 1]) == end.max_uid);
            }
        }
        assert forall|k: int| 0 <= k <= uids.len() implies (#[trigger] run_progress(start, uids.take(k))).max_uid <= end.max_uid by {
            if k < uids.len() {
                assert(uids.take(k) =~= init.take(k));
            } else {
                assert(uids.take(k) =~= uids);
            }
        }
    } else {
        assert forall|k: int| 0 <= k <= uids.len() implies (#[trigger] run_progress(start, uids.take(k))).max_uid <= run_progress(start, uids).max_uid by {
            assert(uids.take(k) =~= uids);
        }
    }
}


/// Exactly the newer UIDs are downloaded: a UID is in the list to download exactly
/// when some fetched entry carries it and it lies above the watermark, and the list
/// keeps the order of the fetched entries.
pub proof fn law_newer_uids_are_exactly_the_newer_ones(fetched: Seq<Option<u32>>, last_uid: i64, u: u32)
    ensures
        newer_uids(fetched, last_uid).contains(u) <==> ((u as int) > last_uid && fetched.contains(Some(u))),
        newer_uids(fetched, last_uid).len() <= fetched.len(),
    decreases fetched.len(),
{
    if fetched.len() > 0 {
        let init = fetched.drop_last();
        law_newer_uids_are_exactly_the_newer_ones(init, last_uid, u);
        let prev = newer_uids(init, last_uid);
        let res = newer_uids(fetched, last_uid);
        assert(fetched =~= init.push(fetched.last()));
        if init.contains(Some(u)) {
            let k = choose|k: int| 0 <= k < init.len() && init[k] == Some(u);
            assert(fetched[k] == Some(u));
        }
        if fetched.contains(Some(u)) {
            let k = choose|k: int| 0 <= k < fetched.len() && fetched[k] == Some(u);
            if k < init.len() {
                assert(init[k] == Some(u));
            }
        }
        if prev.contains(u) {
            let k = choose|k: int| 0 <= k < prev.len() && prev[k] == u;
            assert(res[k] == u);
        }
        if res.contains(u) {
            let k = choose|k: int| 0 <= k < res.len() && res[k] == u;
            if k < prev.len() {
                assert(prev[k] == u);
            }
        }
        if fetched.last() == Some(u) && (u as int) > last_uid {
            assert(res[res.len() - 1] == u);
        }
    }
}

} // verus!

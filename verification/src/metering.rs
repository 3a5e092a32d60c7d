//! Entitlement and renewal: what a credit buys, which service is paid for,
//! and what a sweep over the services does.

use crate::rows::Watch;
use crate::table::{lemma_filter_contains, lemma_filter_push, opt_str};
use crate::text::{
    first_index, lemma_first_index, lemma_first_index_is, lemma_lower_again, lemma_lower_caseless,
    lemma_lower_join, lemma_pieces, lemma_split_append, lemma_split_once_at, lemma_split_plain,
    lemma_trim_end_at, lemma_trim_start_at, lemma_trimmed, lower_char, lower_of,
    parse_i64, parse_i64_of, parse_u64, parse_u64_of, split, split_of, split_once, split_once_of,
    texts, to_lower, trim, trim_end_char, trim_end_char_of, trim_end_of, trim_of, trim_start_of,
};
use vstd::prelude::*;

verus! {

// --- keys ---

/// The part of a local name before any `+tag`.
pub open spec fn untagged(local: Seq<char>) -> Seq<char> {
    local.take(first_index(local, '+'))
}

/// The local name and the provider of a login: what stands around its first
/// `@`, or the login and the host where it has none.
pub open spec fn login_parts(login: Seq<char>, host: Seq<char>) -> (Seq<char>, Seq<char>) {
    let login = lower_of(trim_of(login));
    match split_once_of(login, '@') {
        Some((local, domain)) => (local, domain),
        None => (login, lower_of(trim_of(host))),
    }
}

/// The key of the mailbox that a login reaches: lower case, no `+tag`, keyed
/// on the local name and the provider.
pub open spec fn mailbox_key_of(login: Seq<char>, host: Seq<char>) -> Seq<char> {
    let (local, domain) = login_parts(login, host);
    untagged(local) + seq!['@'] + domain
}

/// The key of the mailbox that a login reaches. Two logins that reach the same
/// inbox share one key, so that aliases farm nothing.
pub fn mailbox_key(login: &str, imap_host: &str) -> (r: String)
    ensures
        r@ == mailbox_key_of(login@, imap_host@),
{
    let plain = to_lower(trim(login).as_str());
    let (local, domain) = match split_once(plain.as_str(), '@') {
        Some((local, domain)) => (local, domain),
        None => (plain.clone(), to_lower(trim(imap_host).as_str())),
    };
    let pieces = split(local.as_str(), '+');
    proof {
        lemma_first_index(local@, '+');
        assert(split_of(local@, '+').len() > 0);
        assert(texts(pieces@).len() == pieces@.len());
        assert(pieces@[0]@ == texts(pieces@)[0]);
        assert(local@.take(local@.len() as int) =~= local@);
    }
    let mut out = pieces[0].clone();
    out.push('@');
    out.append(domain.as_str());
    assert(out@ =~= untagged(local@) + seq!['@'] + domain@);
    out
}

/// The labels of a host: what stands between its dots, without empty ones.
pub open spec fn labels_of(host: Seq<char>) -> Seq<Seq<char>> {
    split_of(host, '.').filter(|label: Seq<char>| label.len() > 0)
}

/// A host as it is looked at for its provider: trimmed, without trailing dots,
/// in lower case.
pub open spec fn plain_host(host: Seq<char>) -> Seq<char> {
    lower_of(trim_end_char_of(trim_of(host), '.'))
}

/// The provider of a host: its last two labels, or the host where it has
/// fewer.
pub open spec fn provider_domain_of(host: Seq<char>) -> Seq<char> {
    let labels = labels_of(plain_host(host));
    if labels.len() >= 2 {
        labels[labels.len() - 2] + seq!['.'] + labels[labels.len() - 1]
    } else {
        plain_host(host)
    }
}

/// The provider domain a service is grouped by and its trial is gated by.
pub fn provider_domain(host: &str) -> (r: String)
    ensures
        r@ == provider_domain_of(host@),
{
    let host = to_lower(trim_end_char(trim(host).as_str(), '.').as_str());
    let pieces = split(host.as_str(), '.');
    let ghost all = texts(pieces@);
    let ghost keep = |label: Seq<char>| label.len() > 0;
    let mut labels: Vec<String> = Vec::new();
    let mut i: usize = 0;
    assert(all.take(0).filter(keep) =~= Seq::empty()) by {
        reveal(Seq::filter);
    }
    assert(texts(labels@) =~= Seq::empty());
    while i < pieces.len()
        invariant
            i <= pieces@.len(),
            all == texts(pieces@),
            keep == |label: Seq<char>| label.len() > 0,
            texts(labels@) == all.take(i as int).filter(keep),
        decreases pieces@.len() - i,
    {
        proof {
            lemma_filter_push(all.take(i as int), keep, all[i as int]);
            assert(all.take(i + 1) =~= all.take(i as int).push(all[i as int]));
            assert(all[i as int] == pieces@[i as int]@);
        }
        if pieces[i].as_str().unicode_len() > 0 {
            let ghost before = labels@;
            labels.push(pieces[i].clone());
            assert(texts(labels@) =~= texts(before).push(all[i as int]));
        }
        i += 1;
    }
    assert(all.take(i as int) =~= all);
    assert(texts(labels@) == labels_of(host@));
    if labels.len() >= 2 {
        let n: usize = labels.len();
        assert(texts(labels@)[n - 2] == labels@[n - 2]@);
        assert(texts(labels@)[n - 1] == labels@[n - 1]@);
        let mut out = labels[n - 2].clone();
        out.push('.');
        out.append(labels[n - 1].as_str());
        assert(out@ =~= labels@[n - 2]@ + seq!['.'] + labels@[n - 1]@);
        out
    } else {
        host
    }
}

/// Whether a service is paid for: its paid time is in the future.
pub open spec fn entitled(watching_until: Option<i64>, now: int) -> bool {
    watching_until matches Some(until) && now < until
}

/// Whether a service is currently paid for.
pub fn pim_entitled(watching_until: Option<i64>, now: i64) -> (r: bool)
    ensures
        r == entitled(watching_until, now as int),
{
    match watching_until {
        Some(until) => now < until,
        None => false,
    }
}

/// Whether a service is currently paid for.
pub fn watch_entitled(watch: &Watch, now: i64) -> (r: bool)
    ensures
        r == entitled(watch.watching_until, now as int),
{
    pim_entitled(watch.watching_until, now)
}

// --- settings ---

/// One watch-month, in seconds: what a credit buys.
pub const DEFAULT_MONTH_SECS: i64 = 2_592_000;

/// How long before the end of a month a service is warned, in seconds.
pub const DEFAULT_WARN_BEFORE_SECS: i64 = 259_200;

/// The pool is low at this many credits or fewer.
pub const DEFAULT_LOW_POOL_CREDITS: i64 = 2;

/// Time between two sweeps, in seconds.
pub const DEFAULT_TICK_SECS: u64 = 60;

/// Credits granted once to an account, on its first validated PIM account.
pub const FREE_CREDITS_ON_SIGNUP: i64 = 1;

/// How long a newly created service is watched for free, in seconds.
pub const DEFAULT_FREE_TRIAL_SECS: i64 = 604_800;

/// A setting given as text, where it is a number.
pub open spec fn setting(value: Option<Seq<char>>) -> Option<int> {
    match value {
        Some(v) => parse_i64_of(v),
        None => None,
    }
}

/// A setting given as text, where it is a number.
pub fn env_i64(value: Option<&str>) -> (r: Option<i64>)
    ensures
        match r {
            Some(n) => setting(opt_str(value)) == Some(n as int),
            None => setting(opt_str(value)) is None,
        },
{
    match value {
        Some(v) => parse_i64(v),
        None => None,
    }
}

/// A setting, or its default, and at least one.
pub open spec fn at_least_one(value: Option<int>, default: int) -> int {
    let n = match value {
        Some(n) => n,
        None => default,
    };
    if n < 1 {
        1
    } else {
        n
    }
}

fn positive_setting(value: Option<&str>, default: i64) -> (r: i64)
    ensures
        r == at_least_one(setting(opt_str(value)), default as int),
{
    let n: i64 = match env_i64(value) {
        Some(n) => n,
        None => default,
    };
    if n < 1 {
        1
    } else {
        n
    }
}

/// The length of the free trial, in seconds, for what the setting
/// `CARILLON_FREE_TRIAL_SECS` holds.
pub fn free_trial_secs(value: Option<&str>) -> (r: i64)
    ensures
        r == at_least_one(setting(opt_str(value)), DEFAULT_FREE_TRIAL_SECS as int),
{
    positive_setting(value, DEFAULT_FREE_TRIAL_SECS)
}

/// What one credit buys, in seconds, for what the setting
/// `CARILLON_MONTH_SECS` holds.
pub fn month_secs(value: Option<&str>) -> (r: i64)
    ensures
        r == at_least_one(setting(opt_str(value)), DEFAULT_MONTH_SECS as int),
{
    positive_setting(value, DEFAULT_MONTH_SECS)
}

/// The time between two sweeps, in seconds, for what the setting
/// `CARILLON_METER_TICK_SECS` holds.
pub fn tick(value: Option<&str>) -> (r: u64)
    ensures
        r == at_least_one(
            match opt_str(value) {
                Some(v) => parse_u64_of(v),
                None => None,
            },
            DEFAULT_TICK_SECS as int,
        ),
{
    let read = match value {
        Some(v) => parse_u64(v),
        None => None,
    };
    let n: u64 = match read {
        Some(n) => n,
        None => DEFAULT_TICK_SECS,
    };
    if n < 1 {
        1
    } else {
        n
    }
}

/// How long before the end of a month a service is warned, in seconds, for
/// what the setting `CARILLON_WARN_BEFORE_SECS` holds.
pub fn warn_before_secs(value: Option<&str>) -> (r: i64)
    ensures
        match setting(opt_str(value)) {
            Some(n) => r == n,
            None => r == DEFAULT_WARN_BEFORE_SECS,
        },
{
    match env_i64(value) {
        Some(n) => n,
        None => DEFAULT_WARN_BEFORE_SECS,
    }
}

/// The number of credits at which a pool is low, for what the setting
/// `CARILLON_LOW_POOL_CREDITS` holds.
pub fn low_pool_credits(value: Option<&str>) -> (r: i64)
    ensures
        match setting(opt_str(value)) {
            Some(n) => r == n,
            None => r == DEFAULT_LOW_POOL_CREDITS,
        },
{
    match env_i64(value) {
        Some(n) => n,
        None => DEFAULT_LOW_POOL_CREDITS,
    }
}

// --- laws of the keys ---

/// A login with a `+tag` has the key of the login without it, whatever the
/// hosts are.
pub proof fn tag_does_not_change_the_key(
    local: Seq<char>,
    tag: Seq<char>,
    domain: Seq<char>,
    host: Seq<char>,
    other: Seq<char>,
)
    requires
        !local.contains('@'),
        !tag.contains('@'),
    ensures
        mailbox_key_of(local + seq!['+'] + tag + seq!['@'] + domain, host) == mailbox_key_of(
            local + seq!['@'] + domain,
            other,
        ),
{
    let start = trim_start_of(local);
    let end = trim_end_of(domain);
    lemma_trim_start_keeps(local, '@');
    assert(!(start + seq!['+'] + tag).contains('@')) by {
        let t = start + seq!['+'] + tag;
        assert forall|i: int| 0 <= i < t.len() implies t[i] != '@' by {
            if i < start.len() {
                assert(t[i] == start[i]);
            } else if i > start.len() {
                assert(t[i] == tag[i - start.len() - 1]);
            }
        }
    }
    // with the tag
    let tagged = local + seq!['+'] + tag;
    lemma_trim_start_at(tagged, '@', domain);
    lemma_trim_start_at(local, '+', tag);
    let whole = tagged + seq!['@'] + domain;
    assert(trim_start_of(whole) == start + seq!['+'] + tag + seq!['@'] + domain);
    lemma_trim_end_at(start + seq!['+'] + tag, '@', domain);
    let a = lower_of(start + seq!['+'] + tag);
    let d = lower_of(end);
    lemma_key_of_parts(whole, start + seq!['+'] + tag, end, host);
    // without it
    let plain = local + seq!['@'] + domain;
    lemma_trim_start_at(local, '@', domain);
    lemma_trim_end_at(start, '@', domain);
    lemma_key_of_parts(plain, start, end, other);
    let b = lower_of(start);
    // the same name before the first `+`
    lemma_lower_join(start + seq!['+'], tag);
    lemma_lower_join(start, seq!['+']);
    assert(lower_of(seq!['+']) =~= seq!['+']);
    assert(a =~= b + seq!['+'] + lower_of(tag));
    lemma_first_index(b, '+');
    let k = first_index(b, '+');
    assert forall|i: int| 0 <= i < k implies a[i] != '+' by {
        assert(a[i] == b[i]);
    }
    assert(k < b.len() ==> a[k] == b[k]);
    assert(k == b.len() ==> a[k] == '+');
    lemma_first_index_is(a, '+', k);
    assert(a.take(k) =~= b.take(k));
}

proof fn lemma_trim_start_keeps(s: Seq<char>, c: char)
    requires
        !s.contains(c),
    ensures
        !trim_start_of(s).contains(c),
    decreases s.len(),
{
    if s.len() > 0 && crate::text::is_white(s[0]) {
        assert(!s.drop_first().contains(c)) by {
            if s.drop_first().contains(c) {
                let i = choose|i: int| 0 <= i < s.drop_first().len() && s.drop_first()[i] == c;
                assert(s[i + 1] == c);
            }
        }
        lemma_trim_start_keeps(s.drop_first(), c);
    }
}

/// The key of a login whose trimmed form is known.
proof fn lemma_key_of_parts(login: Seq<char>, local: Seq<char>, domain: Seq<char>, host: Seq<char>)
    requires
        trim_of(login) == local + seq!['@'] + domain,
    ensures
        !local.contains('@') ==> mailbox_key_of(login, host) == untagged(lower_of(local)) + seq![
            '@',
        ] + lower_of(domain),
{
    if !local.contains('@') {
        lemma_lower_join(local + seq!['@'], domain);
        lemma_lower_join(local, seq!['@']);
        assert(lower_of(seq!['@']) =~= seq!['@']);
        lemma_lower_caseless(local, '@');
        lemma_split_once_at(lower_of(local), '@', lower_of(domain));
    }
}

/// The case of a login and the white space around it do not change its key.
pub proof fn case_does_not_change_the_key(login: Seq<char>, other: Seq<char>, host: Seq<char>)
    requires
        lower_of(trim_of(login)) == lower_of(trim_of(other)),
    ensures
        mailbox_key_of(login, host) == mailbox_key_of(other, host),
{
}

/// The hosts under one registrable domain have that domain as their provider,
/// so that a provider's mail host and its contacts host count as one.
pub proof fn hosts_of_a_domain_share_a_provider(
    host: Seq<char>,
    second: Seq<char>,
    last: Seq<char>,
)
    requires
        second.len() > 0,
        last.len() > 0,
        !second.contains('.'),
        !last.contains('.'),
        !crate::text::is_white(last.last()),
    ensures
        provider_domain_of(host + seq!['.'] + second + seq!['.'] + last) == lower_of(second)
            + seq!['.'] + lower_of(last),
{
    let rest = second + seq!['.'] + last;
    let whole = host + seq!['.'] + rest;
    assert(whole =~= host + seq!['.'] + second + seq!['.'] + last);
    let start = trim_start_of(host);
    lemma_trim_start_at(host, '.', rest);
    let trimmed = start + seq!['.'] + rest;
    assert(trimmed.last() == last.last());
    assert(trim_of(whole) == trimmed);
    assert(last.last() != '.') by {
        assert(last[last.len() - 1] == last.last());
    }
    assert(trim_end_char_of(trimmed, '.') == trimmed);
    let (h, s2, l2) = (lower_of(start), lower_of(second), lower_of(last));
    let plain = h + seq!['.'] + s2 + seq!['.'] + l2;
    assert(lower_of(seq!['.']) =~= seq!['.']);
    assert(lower_of(trimmed) =~= plain) by {
        lemma_lower_join(start + seq!['.'], rest);
        lemma_lower_join(start, seq!['.']);
        lemma_lower_join(second + seq!['.'], last);
        lemma_lower_join(second, seq!['.']);
    }
    lemma_lower_caseless(second, '.');
    lemma_lower_caseless(last, '.');
    lemma_split_append(h + seq!['.'] + s2, '.', l2);
    lemma_split_append(h, '.', s2);
    let keep = |label: Seq<char>| label.len() > 0;
    let first = split_of(h, '.');
    lemma_filter_push(first.push(s2), keep, l2);
    lemma_filter_push(first, keep, s2);
    assert(labels_of(plain) == first.filter(keep).push(s2).push(l2));
}

/// A mailbox key is its own key, whatever the host is: a key that is read back
/// as a login leads to the same mailbox.
pub proof fn key_is_its_own_key(login: Seq<char>, host: Seq<char>, other: Seq<char>)
    ensures
        mailbox_key_of(mailbox_key_of(login, host), other) == mailbox_key_of(login, host),
{
    let plain = lower_of(trim_of(login));
    let (local, domain) = login_parts(login, host);
    let name = untagged(local);
    let key = name + seq!['@'] + domain;
    lemma_trimmed(login);
    lemma_trimmed(host);
    lemma_lower_again(trim_of(login));
    lemma_lower_again(trim_of(host));
    lemma_first_index(plain, '@');
    lemma_first_index(local, '+');
    assert forall|i: int| 0 <= i < plain.len() implies lower_char(#[trigger] plain[i]) == plain[i] by {
        assert(lower_of(plain)[i] == plain[i]);
    }
    assert(lower_of(name) =~= name);
    if plain.contains('@') {
        assert(lower_of(domain) =~= domain);
    }
    assert(!name.contains('@')) by {
        if name.contains('@') {
            let i = choose|i: int| 0 <= i < name.len() && name[i] == '@';
            assert(plain[i] == '@');
        }
    }
    assert(name.len() > 0 ==> name[0] == plain[0]);
    assert(trim_start_of(name) == name);
    assert(domain.len() > 0 ==> !crate::text::is_white(domain.last()));
    assert(trim_end_of(domain) == domain);
    lemma_trim_start_at(name, '@', domain);
    lemma_trim_end_at(name, '@', domain);
    lemma_key_of_parts(key, name, domain, other);
    lemma_first_index_is(name, '+', name.len() as int);
    assert(name.take(name.len() as int) =~= name);
}

/// Two labels make a provider of their own.
proof fn lemma_two_labels(a: Seq<char>, b: Seq<char>)
    requires
        a.len() > 0,
        b.len() > 0,
        !a.contains('.'),
        !b.contains('.'),
        lower_of(a) == a,
        lower_of(b) == b,
        trim_of(a + seq!['.'] + b) == a + seq!['.'] + b,
    ensures
        provider_domain_of(a + seq!['.'] + b) == a + seq!['.'] + b,
{
    let keep = |label: Seq<char>| label.len() > 0;
    let p = a + seq!['.'] + b;
    assert(b[b.len() - 1] != '.');
    assert(p.last() == b.last());
    assert(trim_end_char_of(p, '.') == p);
    assert(lower_of(p) == p) by {
        lemma_lower_join(a + seq!['.'], b);
        lemma_lower_join(a, seq!['.']);
        assert(lower_of(seq!['.']) =~= seq!['.']);
    }
    lemma_split_append(a, '.', b);
    lemma_split_plain(a, '.');
    let none = Seq::<Seq<char>>::empty();
    assert(none.filter(keep) =~= none) by {
        reveal(Seq::filter);
    }
    assert(seq![a] =~= none.push(a));
    lemma_filter_push(none, keep, a);
    lemma_filter_push(seq![a], keep, b);
    assert(labels_of(p) == none.push(a).push(b));
}

/// A label is not empty, holds no dot, and is in lower case where the host is.
proof fn lemma_label(host: Seq<char>, k: int)
    requires
        0 <= k < labels_of(host).len(),
        lower_of(host) == host,
    ensures
        labels_of(host)[k].len() > 0,
        !labels_of(host)[k].contains('.'),
        lower_of(labels_of(host)[k]) == labels_of(host)[k],
{
    let keep = |label: Seq<char>| label.len() > 0;
    let pieces = split_of(host, '.');
    let label = labels_of(host)[k];
    lemma_pieces(host, '.');
    lemma_filter_contains(pieces, keep, label);
    assert(labels_of(host).contains(label));
    let i = choose|i: int| 0 <= i < pieces.len() && pieces[i] == label;
    assert(!pieces[i].contains('.'));
}

/// A provider domain is its own provider domain, where no white space is left
/// around it.
pub proof fn provider_is_its_own_provider(host: Seq<char>)
    requires
        trim_of(provider_domain_of(host)) == provider_domain_of(host),
    ensures
        provider_domain_of(provider_domain_of(host)) == provider_domain_of(host),
{
    let plain = plain_host(host);
    let labels = labels_of(plain);
    let bare = trim_end_char_of(trim_of(host), '.');
    lemma_lower_again(bare);
    if labels.len() >= 2 {
        lemma_label(plain, labels.len() - 2);
        lemma_label(plain, labels.len() - 1);
        lemma_two_labels(labels[labels.len() - 2], labels[labels.len() - 1]);
    } else {
        lemma_dots_are_gone(trim_of(host), '.');
        assert(plain.len() > 0 ==> plain.last() == lower_char(bare.last()));
        assert(trim_end_char_of(plain, '.') == plain);
    }
}

proof fn lemma_dots_are_gone(s: Seq<char>, c: char)
    ensures
        trim_end_char_of(s, c).len() > 0 ==> trim_end_char_of(s, c).last() != c,
    decreases s.len(),
{
    if s.len() > 0 && s.last() == c {
        lemma_dots_are_gone(s.drop_last(), c);
    }
}

// --- laws of the paid time ---

/// A service is paid for strictly before the time it is paid up to, and one
/// that was never activated is not.
pub proof fn paid_time_ends_when_it_says(until: i64, now: int)
    ensures
        entitled(Some(until), now) <==> now < until,
        !entitled(None, now),
{
}

/// A setting that is a number counts, and one that is not is as good as none;
/// where at least one is needed, a smaller number counts as one.
pub proof fn settings_fall_back(n: int, default: int)
    ensures
        n >= 1 ==> at_least_one(Some(n), default) == n,
        n < 1 ==> at_least_one(Some(n), default) == 1,
        default >= 1 ==> at_least_one(None, default) == default,
        setting(None) is None,
{
}

/// Unless they are set, a credit buys thirty days, a service is warned three
/// days before its month ends, a pool is low at two credits, services are swept
/// once a minute, an account starts with one free credit, and a trial lasts
/// seven days.
pub proof fn terms_of_service()
    ensures
        DEFAULT_MONTH_SECS == 30 * 24 * 3600,
        DEFAULT_WARN_BEFORE_SECS == 3 * 24 * 3600,
        DEFAULT_LOW_POOL_CREDITS == 2,
        DEFAULT_TICK_SECS == 60,
        FREE_CREDITS_ON_SIGNUP == 1,
        DEFAULT_FREE_TRIAL_SECS == 7 * 24 * 3600,
{
}

/// The key of a login that names a domain is its name without what follows a
/// `+`, and the domain, in lower case; the host does not matter.
pub proof fn key_is_name_and_domain(
    local: Seq<char>,
    domain: Seq<char>,
    host: Seq<char>,
)
    requires
        !local.contains('@'),
        !local.contains('+'),
        trim_of(local + seq!['@'] + domain) == local + seq!['@'] + domain,
    ensures
        mailbox_key_of(local + seq!['@'] + domain, host) == lower_of(local) + seq!['@'] + lower_of(
            domain,
        ),
{
    lemma_key_of_parts(local + seq!['@'] + domain, local, domain, host);
    lemma_lower_caseless(local, '+');
    lemma_first_index(lower_of(local), '+');
    assert(untagged(lower_of(local)) =~= lower_of(local));
}

/// The key of a login that names no domain is the login and the host, in lower
/// case.
pub proof fn key_of_a_bare_login_has_the_host(login: Seq<char>, host: Seq<char>)
    requires
        !login.contains('@'),
        !login.contains('+'),
        trim_of(login) == login,
        trim_of(host) == host,
    ensures
        mailbox_key_of(login, host) == lower_of(login) + seq!['@'] + lower_of(host),
{
    lemma_lower_caseless(login, '@');
    lemma_lower_caseless(login, '+');
    lemma_first_index(lower_of(login), '@');
    lemma_first_index(lower_of(login), '+');
    assert(untagged(lower_of(login)) =~= lower_of(login));
}

} // verus!

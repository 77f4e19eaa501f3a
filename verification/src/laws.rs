use vstd::prelude::*;

use crate::command::{spec_plan, Command, Removal, Target};
use crate::endpoint::{identity_url_text, picture_url_text, token_url_text};
use crate::json::{elements_text, json_text, members_text, quoted, string_of};
use crate::timing::rfc3339_instant;
use crate::escaping::{escape_proof_word, lemma_quoted_substring};
use crate::filter::{has_inactive_status, inactive_status, last_modified, stale_at, unmodified_for};
use crate::timing::{chrono_span_nanos, older_than, representable};
use crate::json::field;
use crate::text::has_substring;
use crate::json::Json;
use crate::timing::Instant;

verus! {

/// Filtering a list twice by two conditions keeps what filtering once by both keeps.
proof fn lemma_filter_twice<A>(s: Seq<A>, p: spec_fn(A) -> bool, q: spec_fn(A) -> bool)
    ensures
        s.filter(p).filter(q) == s.filter(|x: A| p(x) && q(x)),
    decreases s.len(),
{
    reveal(Seq::filter);
    if s.len() > 0 {
        lemma_filter_twice(s.drop_last(), p, q);
        let both = |x: A| p(x) && q(x);
        assert(s.filter(both) == if both(s.last()) {
            s.drop_last().filter(both).push(s.last())
        } else {
            s.drop_last().filter(both)
        });
        if p(s.last()) {
            assert(s.filter(p) == s.drop_last().filter(p).push(s.last()));
            assert(s.filter(p).drop_last() =~= s.drop_last().filter(p));
        } else {
            assert(s.filter(p) == s.drop_last().filter(p));
        }
    }
    assert(s.filter(p).filter(q) =~= s.filter(|x: A| p(x) && q(x)));
}

/// Selecting the inactive identities, then of these the stale ones, keeps exactly the
/// identities that are both, in their order.
pub proof fn law_selection_is_both_conditions(identities: Seq<Json>, now: Instant, inactive_days: int)
    ensures
        identities.filter(inactive_status()).filter(stale_at(now, inactive_days))
            == identities.filter(|x: Json| inactive_status()(x) && stale_at(now, inactive_days)(x)),
{
    lemma_filter_twice(identities, inactive_status(), stale_at(now, inactive_days));
}

/// The two filters can be applied in either order.
pub proof fn law_filters_commute(identities: Seq<Json>, now: Instant, inactive_days: int)
    ensures
        identities.filter(inactive_status()).filter(stale_at(now, inactive_days))
            == identities.filter(stale_at(now, inactive_days)).filter(inactive_status()),
{
    let p = inactive_status();
    let q = stale_at(now, inactive_days);
    lemma_filter_twice(identities, p, q);
    lemma_filter_twice(identities, q, p);
    assert((|x: Json| p(x) && q(x)) =~= (|x: Json| q(x) && p(x)));
}

/// Filtering by status a second time changes nothing.
pub proof fn law_status_filter_idempotent(identities: Seq<Json>)
    ensures
        identities.filter(inactive_status()).filter(inactive_status()) == identities.filter(inactive_status()),
{
    let p = inactive_status();
    lemma_filter_twice(identities, p, p);
    assert((|x: Json| p(x) && p(x)) =~= p);
}

/// An identity unmodified for more than some days is unmodified for more than any
/// fewer days.
pub proof fn law_fewer_days_keep_more(identity: Json, now: Instant, fewer: int, more: int)
    requires
        fewer <= more,
        unmodified_for(identity, now, more),
    ensures
        unmodified_for(identity, now, fewer),
{
    assert(fewer * 86_400 * 1_000_000_000 <= more * 86_400 * 1_000_000_000) by (nonlinear_arith)
        requires
            fewer <= more,
    ;
}

/// The identities that a filter keeps all meet its condition and come from the list.
pub proof fn law_kept_meet_condition(identities: Seq<Json>, keep: spec_fn(Json) -> bool)
    ensures
        identities.filter(keep).len() <= identities.len(),
        forall|i: int| 0 <= i < identities.filter(keep).len() ==> keep(#[trigger] identities.filter(keep)[i])
            && identities.contains(identities.filter(keep)[i]),
{
    identities.lemma_filter_len(keep);
    let kept = identities.filter(keep);
    assert forall|i: int| 0 <= i < kept.len() implies keep(#[trigger] kept[i]) && identities.contains(kept[i]) by {
        identities.lemma_filter_pred(keep, i);
        assert(kept.contains(kept[i]));
        identities.lemma_filter_contains_rev(keep, kept[i]);
    }
}

/// An identity whose status is a string is inactive exactly where that string holds
/// `Inactive`: quoting and escaping the status neither make nor hide the word.
pub proof fn law_string_status(identity: Json, status: String)
    requires
        field(identity, "status"@) == Some(Json::Str(status)),
    ensures
        has_inactive_status(identity) == has_substring(status@, "Inactive"@),
{
    reveal_strlit("Inactive");
    let w = "Inactive"@;
    assert(escape_proof_word(w));
    lemma_quoted_substring(status@, w);
}

/// No command deletes anything without asking the user first.
pub proof fn law_deletion_is_confirmed(command: Command)
    ensures
        spec_plan(command).removal is Some ==> spec_plan(command).confirm,
{
}

/// Identities are only ever deleted among the inactive ones; pictures are deleted for
/// every identity, with no selection.
pub proof fn law_what_is_deleted(command: Command)
    ensures
        spec_plan(command).removal matches Some(r) && r.target == Target::Identity ==> spec_plan(command).inactive_days is Some,
        spec_plan(command).removal matches Some(r) && r.target == Target::Picture ==> spec_plan(command).inactive_days is None,
        spec_plan(command).removal is None ==> spec_plan(command).inactive_days is Some,
{
}

/// Whether `sub` is `whole` with some of its items left out, the rest in their order.
pub open spec fn is_subsequence<A>(sub: Seq<A>, whole: Seq<A>) -> bool {
    exists|keep: spec_fn(A) -> bool| sub == whole.filter(keep)
}

/// At one moment, the identities unmodified for more days are those unmodified for
/// fewer days that are also unmodified for more: a subsequence of them.
pub proof fn law_more_days_keep_a_subsequence(identities: Seq<Json>, now: Instant, fewer: int, more: int)
    requires
        fewer <= more,
    ensures
        identities.filter(stale_at(now, more)) == identities.filter(stale_at(now, fewer)).filter(stale_at(now, more)),
        is_subsequence(identities.filter(stale_at(now, more)), identities.filter(stale_at(now, fewer))),
{
    let p = stale_at(now, fewer);
    let q = stale_at(now, more);
    lemma_filter_twice(identities, p, q);
    assert forall|x: Json| #[trigger] q(x) implies p(x) by {
        law_fewer_days_keep_more(x, now, fewer, more);
    }
    assert((|x: Json| p(x) && q(x)) =~= q);
}

/// Filtering the same identities again at the same moment changes nothing.
pub proof fn law_date_filter_idempotent(identities: Seq<Json>, now: Instant, inactive_days: int)
    ensures
        identities.filter(stale_at(now, inactive_days)).filter(stale_at(now, inactive_days))
            == identities.filter(stale_at(now, inactive_days)),
{
    let q = stale_at(now, inactive_days);
    lemma_filter_twice(identities, q, q);
    assert((|x: Json| q(x) && q(x)) =~= q);
}

/// Both filters work item by item: filtering two lists joined is joining the two
/// filtered lists.
pub proof fn law_filters_distribute_over_concatenation(a: Seq<Json>, b: Seq<Json>, now: Instant, inactive_days: int)
    ensures
        (a + b).filter(inactive_status()) == a.filter(inactive_status()) + b.filter(inactive_status()),
        (a + b).filter(stale_at(now, inactive_days)) == a.filter(stale_at(now, inactive_days)) + b.filter(stale_at(now, inactive_days)),
{
    Seq::filter_distributes_over_add(a, b, inactive_status());
    Seq::filter_distributes_over_add(a, b, stale_at(now, inactive_days));
}

/// The moment `i` as nanoseconds since 1970.
pub open spec fn instant_nanos(i: Instant) -> int {
    i.seconds * 1_000_000_000 + i.nanos
}

/// Measured from a fixed moment `m`, a time of more than some whole days stays more than
/// that many days at any later reading of a clock that is never inside a leap second.
proof fn lemma_span_stays_long(now1: Instant, now2: Instant, m: Instant, days: int)
    requires
        now1.nanos < 1_000_000_000,
        now2.nanos < 1_000_000_000,
        m.nanos < 2_000_000_000,
        instant_nanos(now1) <= instant_nanos(now2),
        chrono_span_nanos(now1, m) > days * 86_400 * 1_000_000_000,
    ensures
        chrono_span_nanos(now2, m) > days * 86_400 * 1_000_000_000,
{
    let s1 = now1.seconds as int;
    let s2 = now2.seconds as int;
    let se = m.seconds as int;
    let n1 = now1.nanos as int;
    let n2 = now2.nanos as int;
    let ne = m.nanos as int;
    let t1 = s1 % 86_400;
    let t2 = s2 % 86_400;
    let te = se % 86_400;
    let d = days * 86_400;
    let big = d * 1_000_000_000;
    let adj1: int = if t1 > te && ne >= 1_000_000_000 { 1 } else { 0 };
    let adj2: int = if t2 > te && ne >= 1_000_000_000 { 1 } else { 0 };
    assert(chrono_span_nanos(now1, m) == (s1 - se + adj1) * 1_000_000_000 + n1 - ne);
    assert(chrono_span_nanos(now2, m) == (s2 - se + adj2) * 1_000_000_000 + n2 - ne);
    assert(s1 <= s2) by (nonlinear_arith)
        requires
            s1 * 1_000_000_000 + n1 <= s2 * 1_000_000_000 + n2,
            0 <= n1 < 1_000_000_000,
            0 <= n2 < 1_000_000_000,
    ;
    if adj1 == 1 && adj2 == 0 && chrono_span_nanos(now2, m) <= big {
        let a = s2 - se - d;
        assert(a * 1_000_000_000 + n2 - ne <= 0);
        assert((s1 - se + 1) * 1_000_000_000 + n1 - ne > big);
        assert(a <= 1);
        assert(s1 - s2 + 2 >= 1);
        if s1 == s2 {
            assert(t1 == t2);
        } else {
            assert(s1 == s2 - 1);
            if a == 1 {
                assert(s1 == se + d);
                vstd::arithmetic::div_mod::lemma_mod_multiples_vanish(days, se, 86_400);
                assert((86_400 * days + se) % 86_400 == se % 86_400);
                assert(t1 == te);
            } else {
                assert(a == 0);
                assert(false);
            }
        }
    }
}

/// Filtering again, at a later reading of the clock, the identities that were unmodified
/// for more than some days at an earlier reading keeps all of them: a later reading never
/// shortens the time since a modification.
pub proof fn law_later_reading_keeps_all(identities: Seq<Json>, now1: Instant, now2: Instant, inactive_days: int)
    requires
        now1.nanos < 1_000_000_000,
        now2.nanos < 1_000_000_000,
        representable(now2),
        instant_nanos(now1) <= instant_nanos(now2),
    ensures
        identities.filter(stale_at(now1, inactive_days)).filter(stale_at(now2, inactive_days))
            == identities.filter(stale_at(now1, inactive_days)),
{
    let p = stale_at(now1, inactive_days);
    let q = stale_at(now2, inactive_days);
    lemma_filter_twice(identities, p, q);
    assert forall|x: Json| #[trigger] p(x) implies q(x) by {
        let m = last_modified(x)->0;
        lemma_span_stays_long(now1, now2, m, inactive_days);
    }
    assert((|x: Json| p(x) && q(x)) =~= p);
}

/// A command's plan takes its numbers from the command: listing selects with exactly the
/// days asked for and deletes nothing; purging identities selects with the days asked for
/// and deletes identities with the concurrency asked for; purging pictures selects every
/// identity and deletes pictures with the concurrency asked for.
pub proof fn law_plan_follows_the_command(command: Command)
    ensures
        command matches Command::ListInactiveIdentities { inactive_days }
            ==> spec_plan(command).inactive_days == Some(inactive_days) && spec_plan(command).removal is None
                && !spec_plan(command).confirm,
        command matches Command::PurgeInactiveIdentities { inactive_days, concurrency }
            ==> spec_plan(command).inactive_days == Some(inactive_days)
                && spec_plan(command).removal == Some(Removal { target: Target::Identity, concurrency }),
        command matches Command::PurgePictures { concurrency }
            ==> spec_plan(command).inactive_days is None
                && spec_plan(command).removal == Some(Removal { target: Target::Picture, concurrency }),
{
}

/// The address that deletes an identity is the identities' address, a slash, the
/// identity's id, then `?eTag=` and the whole eTag: it ends with exactly that eTag.
pub proof fn law_deletion_address_carries_the_etag(base_url: Seq<char>, account_id: Seq<char>, id: Seq<char>, etag: Seq<char>)
    ensures
        identity_url_text(base_url, account_id, id, etag)
            == base_url + "/api/v4/accounts/"@ + account_id + "/identities/"@ + id + "?eTag="@ + etag,
        identity_url_text(base_url, account_id, id, etag).len()
            == base_url.len() + account_id.len() + id.len() + etag.len() + 35,
        identity_url_text(base_url, account_id, id, etag).subrange(
            identity_url_text(base_url, account_id, id, etag).len() - etag.len() - 6,
            identity_url_text(base_url, account_id, id, etag).len() as int,
        ) == "?eTag="@ + etag,
{
    reveal_strlit("/api/v4/accounts/");
    reveal_strlit("/identities");
    reveal_strlit("/identities/");
    reveal_strlit("/");
    reveal_strlit("?eTag=");
    let u = identity_url_text(base_url, account_id, id, etag);
    let head = base_url + "/api/v4/accounts/"@ + account_id + "/identities/"@ + id;
    assert(u =~= head + ("?eTag="@ + etag));
    assert(u.subrange(head.len() as int, u.len() as int) =~= "?eTag="@ + etag);
}

/// The address of an identity's picture is the identities' address, a slash, the
/// identity's whole id and `/picture`.
pub proof fn law_picture_address_carries_the_id(base_url: Seq<char>, account_id: Seq<char>, id: Seq<char>)
    ensures
        picture_url_text(base_url, account_id, id)
            == base_url + "/api/v4/accounts/"@ + account_id + "/identities/"@ + id + "/picture"@,
        token_url_text(base_url) == base_url + "/connect/token"@,
{
    reveal_strlit("/identities");
    reveal_strlit("/identities/");
    reveal_strlit("/");
    assert(picture_url_text(base_url, account_id, id)
        =~= base_url + "/api/v4/accounts/"@ + account_id + "/identities/"@ + id + "/picture"@);
}

/// An identity is stale at `now` exactly where its `lastModificationDateUtc` member is a
/// string that reads as a moment more than `inactive_days` days before `now`: no other
/// member of the identity counts.
pub proof fn law_staleness_reads_the_last_modification(identity: Json, now: Instant, inactive_days: int)
    ensures
        stale_at(now, inactive_days)(identity) <==> (
            string_of(field(identity, "lastModificationDateUtc"@)) matches Some(t)
                && rfc3339_instant(t) matches Some(m) && older_than(now, m, inactive_days)),
{
}

/// Where the date of each identity is taken from its `lastModificationDateUtc` member, the
/// other members do not matter: two identities with the same such member are both kept
/// or both dropped.
pub proof fn law_only_the_last_modification_counts(a: Json, b: Json, now: Instant, inactive_days: int)
    requires
        field(a, "lastModificationDateUtc"@) == field(b, "lastModificationDateUtc"@),
    ensures
        stale_at(now, inactive_days)(a) == stale_at(now, inactive_days)(b),
{
}

/// The members of an object, in order, each written as its quoted key, a colon and the
/// text of its value, separated by commas: member `i` is written out between the members
/// before it and the members after it.
proof fn lemma_member_written(members: Seq<(String, Json)>, i: int) -> (ab: (Seq<char>, Seq<char>))
    requires
        0 <= i < members.len(),
    ensures
        members_text(members) == ab.0 + (quoted(members[i].0@) + ":"@ + json_text(members[i].1)) + ab.1,
        i == 0 ==> ab.0 == Seq::<char>::empty(),
        i > 0 ==> ab.0 == members_text(members.subrange(0, i)) + ","@,
    decreases members.len(),
{
    let n = members.len();
    let m = quoted(members[i].0@) + ":"@ + json_text(members[i].1);
    if n == 1 {
        assert(members_text(members) =~= Seq::<char>::empty() + m + Seq::<char>::empty());
        (Seq::<char>::empty(), Seq::<char>::empty())
    } else if i == n - 1 {
        let pre = members_text(members.subrange(0, n - 1)) + ","@;
        assert(members_text(members) =~= pre + m + Seq::<char>::empty());
        (pre, Seq::<char>::empty())
    } else {
        let init = members.subrange(0, n - 1);
        let ab = lemma_member_written(init, i);
        assert(init[i] == members[i]);
        assert(init.subrange(0, i) =~= members.subrange(0, i));
        let last = ","@ + quoted(members[n - 1].0@) + ":"@ + json_text(members[n - 1].1);
        assert(members_text(members) =~= ab.0 + m + (ab.1 + last));
        (ab.0, ab.1 + last)
    }
}

/// The text of `items`, each written as its own text, separated by commas: item `i` is
/// written out between the items before it and the items after it.
proof fn lemma_element_written(items: Seq<Json>, i: int) -> (ab: (Seq<char>, Seq<char>))
    requires
        0 <= i < items.len(),
    ensures
        elements_text(items) == ab.0 + json_text(items[i]) + ab.1,
    decreases items.len(),
{
    let n = items.len();
    if n == 1 {
        assert(elements_text(items) =~= Seq::<char>::empty() + json_text(items[i]) + Seq::<char>::empty());
        (Seq::<char>::empty(), Seq::<char>::empty())
    } else if i == n - 1 {
        let pre = elements_text(items.subrange(0, n - 1)) + ","@;
        assert(elements_text(items) =~= pre + json_text(items[i]) + Seq::<char>::empty());
        (pre, Seq::<char>::empty())
    } else {
        let init = items.subrange(0, n - 1);
        let ab = lemma_element_written(init, i);
        assert(init[i] == items[i]);
        let last = ","@ + json_text(items[n - 1]);
        assert(elements_text(items) =~= ab.0 + json_text(items[i]) + (ab.1 + last));
        (ab.0, ab.1 + last)
    }
}

/// The text of an object writes each member as its quoted key, a colon and the text of
/// the member's own value, whatever that value is; the first member follows the opening
/// brace directly.
pub proof fn law_object_text_writes_each_member(v: Json, i: int)
    requires
        v is Object,
        0 <= i < v->Object_0@.len(),
    ensures
        exists|a: Seq<char>, b: Seq<char>| #![trigger a + b]
            json_text(v) == a + quoted(v->Object_0@[i].0@) + ":"@ + json_text(v->Object_0@[i].1) + b,
        i == 0 ==> exists|b: Seq<char>|
            json_text(v) == "{"@ + quoted(v->Object_0@[0].0@) + ":"@ + json_text(v->Object_0@[0].1) + b,
{
    let members = v->Object_0@;
    let ab = lemma_member_written(members, i);
    let m = quoted(members[i].0@) + ":"@ + json_text(members[i].1);
    let a = "{"@ + ab.0;
    let b = ab.1 + "}"@;
    assert(json_text(v) =~= a + quoted(members[i].0@) + ":"@ + json_text(members[i].1) + b);
    assert(a + b == a + b);
    if i == 0 {
        assert(json_text(v) =~= "{"@ + quoted(members[0].0@) + ":"@ + json_text(members[0].1) + b);
    }
}

/// The text of an array writes each item as the text of the item itself.
pub proof fn law_array_text_writes_each_item(v: Json, i: int)
    requires
        v is Array,
        0 <= i < v->Array_0@.len(),
    ensures
        exists|a: Seq<char>, b: Seq<char>| #![trigger a + b]
            json_text(v) == a + json_text(v->Array_0@[i]) + b,
{
    let items = v->Array_0@;
    let ab = lemma_element_written(items, i);
    let a = "["@ + ab.0;
    let b = ab.1 + "]"@;
    assert(json_text(v) =~= a + json_text(items[i]) + b);
    assert(a + b == a + b);
}

/// An array is written between square brackets and an object between braces, whatever
/// they hold; an empty array is written `[]` and an empty object `{}`.
pub proof fn law_containers_keep_their_brackets(v: Json)
    ensures
        v is Array ==> json_text(v).len() >= 2 && json_text(v)[0] == '[' && json_text(v).last() == ']',
        v is Object ==> json_text(v).len() >= 2 && json_text(v)[0] == '{' && json_text(v).last() == '}',
        v matches Json::Array(items) && items@.len() == 0 ==> json_text(v) == "[]"@,
        v matches Json::Object(members) && members@.len() == 0 ==> json_text(v) == "{}"@,
{
    reveal_strlit("[");
    reveal_strlit("]");
    reveal_strlit("{");
    reveal_strlit("}");
    reveal_strlit("[]");
    reveal_strlit("{}");
    match v {
        Json::Array(items) => {
            let t = json_text(v);
            assert(t == "["@ + elements_text(items@) + "]"@);
            assert(t[0] == '[');
            assert(t.last() == ']');
            if items@.len() == 0 {
                assert(t =~= "[]"@);
            }
        },
        Json::Object(members) => {
            let t = json_text(v);
            assert(t == "{"@ + members_text(members@) + "}"@);
            assert(t[0] == '{');
            assert(t.last() == '}');
            if members@.len() == 0 {
                assert(t =~= "{}"@);
            }
        },
        _ => {},
    }
}

} // verus!

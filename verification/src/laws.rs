//! What holds across the conversions.

use vstd::prelude::*;
use crate::convert::{
    attributes_json, context_json, data_json, event_to_json, extension_json, extensions_from_json,
    event_of_object, extensions_json, json_extension, json_to_event, leftover_entries,
    lemma_keys_distinct, str_at,
    ConvertError,
};
use crate::json::NumberView;
use crate::event::{DataView, EventView, ExtensionView, SpecVersion};
use crate::json::JsonView;
use crate::service::with_type;
use crate::text::{echoed, has_infix};
use crate::json::json_text_value;
use crate::routing::{after_segment, first_segment, route_of, segment_len, Endpoint};
use crate::service::{env_object, HealthProbe};
use vstd::utf8::{decode_utf8, valid_utf8};

verus! {

/// The names an event's JSON object gives its context attributes and data.
pub open spec fn reserved_key(k: Seq<char>) -> bool {
    ||| k == "specversion"@
    ||| k == "id"@
    ||| k == "type"@
    ||| k == "source"@
    ||| k == "datacontenttype"@
    ||| k == "dataschema"@
    ||| k == "subject"@
    ||| k == "time"@
    ||| k == "data"@
}

/// The event carries no data, or JSON data.
pub open spec fn has_json_or_no_data(e: EventView) -> bool {
    match e.data {
        None => true,
        Some(DataView::Json(_)) => true,
        Some(_) => false,
    }
}

/// Every extension of an event comes back from its JSON form unchanged.
pub proof fn lemma_extension_json_round_trip(x: ExtensionView)
    ensures
        json_extension(extension_json(x)) == Some(x),
{
    match x {
        ExtensionView::Integer(i) => {
            if i >= 0 {
                assert((i as u64) as i64 == i);
            }
        },
        _ => {},
    }
}

/// Round trip: an event of version 1.0 with JSON data (or none), with a data
/// content type exactly when it has data, and with no extension named like
/// a context attribute or `data`, comes back from its JSON object as the
/// same event, with one extension more: `specversion`, the string `1.0`.
/// (Its time and data schema are texts that chrono and the `url` crate
/// write, as every `Time` and `SchemaUrl` holds; reading them gives them
/// back.)
pub proof fn lemma_event_json_round_trip(e: EventView)
    requires
        e.well_formed(),
        e.spec_version == SpecVersion::V10,
        has_json_or_no_data(e),
        e.data is Some <==> e.datacontenttype is Some,
        forall|k: Seq<char>| #[trigger] e.extensions.contains_key(k) ==> !reserved_key(k),
    ensures
        event_to_json(e) matches Ok(j) && json_to_event(j) == Ok::<EventView, ConvertError>(
            EventView {
                extensions: e.extensions.insert("specversion"@, ExtensionView::Str("1.0"@)),
                ..e
            },
        ),
{
    lemma_keys_distinct();
    let a = attributes_json(e);
    let x = extensions_json(e.extensions);
    let m = context_json(e);
    let d = data_json(m, e.data)->Ok_0;
    let big = m.insert("data"@, d);
    assert(a.contains_key("id"@) && a["id"@] == JsonView::Str(e.id));
    assert(!x.contains_key("id"@));
    assert(str_at(big, "id"@) == Some(e.id));
    assert(str_at(big, "type"@) == Some(e.ty));
    assert(str_at(big, "source"@) == Some(e.source));
    assert(!x.contains_key("datacontenttype"@));
    assert(str_at(big, "datacontenttype"@) == e.datacontenttype);
    assert(!x.contains_key("dataschema"@));
    assert(str_at(big, "dataschema"@) == e.dataschema);
    assert(!x.contains_key("subject"@));
    assert(str_at(big, "subject"@) == e.subject);
    assert(!x.contains_key("time"@));
    assert(str_at(big, "time"@) == e.time);
    let rest = leftover_entries(big);
    let want = e.extensions.insert("specversion"@, ExtensionView::Str("1.0"@));
    assert forall|k: Seq<char>| #[trigger] want.contains_key(k) implies rest.contains_key(k)
        && json_extension(rest[k]) == Some(want[k]) by {
        if k == "specversion"@ {
            assert(!x.contains_key(k));
        } else {
            assert(e.extensions.contains_key(k));
            assert(!reserved_key(k));
            lemma_extension_json_round_trip(e.extensions[k]);
        }
    }
    assert forall|k: Seq<char>| rest.contains_key(k) implies #[trigger] want.contains_key(k) by {
        if !x.contains_key(k) {
            assert(a.contains_key(k));
        }
    }
    assert(extensions_from_json(rest) =~= want);
}

/// Every JSON value that becomes an extension value comes back from that
/// extension value unchanged.
pub proof fn lemma_json_extension_round_trip(v: JsonView)
    requires
        json_extension(v) is Some,
    ensures
        extension_json(json_extension(v)->0) == v,
{
    match v {
        JsonView::Number(NumberView::Int(i)) => {
            assert(((i as i64) as int) == i);
        },
        _ => {},
    }
}

/// Round trip from JSON: an object with the strings `id`, `type`, `source`
/// and `datacontenttype`, a `data` entry, no `specversion`, `subject`,
/// `dataschema` or `time` entry, and every other entry a string, a boolean
/// or an integer that fits an `i64`, comes back
/// from the event it stands for as the same object with one entry more:
/// `specversion`, the string `1.0`.
pub proof fn lemma_json_event_json_round_trip(m: Map<Seq<char>, JsonView>)
    requires
        str_at(m, "id"@) is Some,
        str_at(m, "type"@) is Some,
        str_at(m, "source"@) is Some,
        str_at(m, "datacontenttype"@) is Some,
        m.contains_key("data"@),
        !m.contains_key("specversion"@),
        !m.contains_key("subject"@),
        !m.contains_key("dataschema"@),
        !m.contains_key("time"@),
        forall|k: Seq<char>|
            #[trigger] m.contains_key(k) && !reserved_key(k) ==> json_extension(m[k]) is Some,
    ensures
        json_to_event(JsonView::Object(m)) matches Ok(e) && event_to_json(e) == Ok::<
            JsonView,
            ConvertError,
        >(JsonView::Object(m.insert("specversion"@, JsonView::Str("1.0"@)))),
{
    lemma_keys_distinct();
    let e = event_of_object(m);
    let rest = leftover_entries(m);
    assert forall|k: Seq<char>| #[trigger] rest.contains_key(k) implies !reserved_key(k) by {
    }
    let a = attributes_json(e);
    let x = extensions_json(e.extensions);
    let ctx = context_json(e);
    let big = ctx.insert("data"@, m["data"@]);
    let want = m.insert("specversion"@, JsonView::Str("1.0"@));
    assert(data_json(ctx, e.data) == Ok::<JsonView, ConvertError>(m["data"@]));
    assert forall|k: Seq<char>| #[trigger] big.contains_key(k) implies want.contains_key(k)
        && big[k] == want[k] by {
        if x.contains_key(k) {
            assert(rest.contains_key(k));
            lemma_json_extension_round_trip(m[k]);
        }
    }
    assert forall|k: Seq<char>| #[trigger] want.contains_key(k) implies big.contains_key(k) by {
        if k != "specversion"@ && !reserved_key(k) {
            assert(rest.contains_key(k));
            assert(e.extensions.contains_key(k));
            assert(x.contains_key(k));
        }
    }
    assert(big =~= want);
}

/// Only binary data can make the JSON form of an event fail: an event
/// without data, or with JSON or string data, always has one.
pub proof fn lemma_event_json_total_without_binary(e: EventView)
    requires
        !(e.data matches Some(DataView::Binary(_))),
    ensures
        event_to_json(e) is Ok,
{
}

/// The answer to an event carries the event's type with `.echoed`
/// appended: where the event has a JSON object and no extension named `id`,
/// `type` or `source`, the event read back from that object has the same
/// type, and its echo has that type with `.echoed` appended.
pub proof fn lemma_echo_type(e: EventView)
    requires
        event_to_json(e) is Ok,
        !e.extensions.contains_key("id"@),
        !e.extensions.contains_key("type"@),
        !e.extensions.contains_key("source"@),
    ensures
        json_to_event(event_to_json(e)->Ok_0) matches Ok(back) && back.ty == e.ty
            && with_type(back, echoed(back.ty)).ty == echoed(e.ty),
{
    lemma_keys_distinct();
    let a = attributes_json(e);
    assert(a.contains_key("id"@) && a["id"@] == JsonView::Str(e.id));
    assert(a.contains_key("type"@) && a["type"@] == JsonView::Str(e.ty));
    assert(a.contains_key("source"@) && a["source"@] == JsonView::Str(e.source));
    let m = context_json(e);
    let x = extensions_json(e.extensions);
    assert(!x.contains_key("id"@));
    assert(!x.contains_key("type"@));
    assert(!x.contains_key("source"@));
    let d = data_json(m, e.data)->Ok_0;
    let big = m.insert("data"@, d);
    assert(str_at(big, "id"@) == Some(e.id));
    assert(str_at(big, "type"@) == Some(e.ty));
    assert(str_at(big, "source"@) == Some(e.source));
}

/// A text holds any piece of it: `pat` occurs in `pre + pat + post`.
pub proof fn lemma_infix_of_concat(pre: Seq<char>, pat: Seq<char>, post: Seq<char>)
    ensures
        has_infix(pre + pat + post, pat),
{
    let s = pre + pat + post;
    assert(s.subrange(pre.len() as int, (pre.len() + pat.len()) as int) =~= pat);
}

/// Binary data declared as JSON is read as JSON: where an event's data
/// content type has `json` anywhere in it (parameters such as
/// `; charset=utf-8` included, and no extension replaces it), and its binary
/// data is UTF-8 text of a JSON value, the `data` entry of its JSON object is
/// that value, next to the event's context entries.
pub proof fn lemma_binary_json_data_is_parsed(
    e: EventView,
    b: Seq<u8>,
    pre: Seq<char>,
    post: Seq<char>,
    v: JsonView,
)
    requires
        e.data == Some(DataView::Binary(b)),
        e.datacontenttype == Some(pre + "json"@ + post),
        !e.extensions.contains_key("datacontenttype"@),
        valid_utf8(b),
        json_text_value(decode_utf8(b)) == Some(v),
    ensures
        event_to_json(e) == Ok::<JsonView, ConvertError>(
            JsonView::Object(context_json(e).insert("data"@, v)),
        ),
        event_to_json(e) matches Ok(JsonView::Object(m)) && m["data"@] == v,
{
    lemma_keys_distinct();
    lemma_infix_of_concat(pre, "json"@, post);
    let a = attributes_json(e);
    let x = extensions_json(e.extensions);
    assert(a.contains_key("datacontenttype"@));
    assert(a["datacontenttype"@] == JsonView::Str(pre + "json"@ + post));
    assert(!x.contains_key("datacontenttype"@));
    assert(context_json(e)["datacontenttype"@] == JsonView::Str(pre + "json"@ + post));
}

/// An event read from a JSON object without a `data` entry has no data;
/// with a `data` entry and a data content type, its data is that entry.
pub proof fn lemma_data_only_from_data_entry(m: Map<Seq<char>, JsonView>)
    ensures
        json_to_event(JsonView::Object(m)) matches Ok(e) ==> (!m.contains_key("data"@)
            ==> e.data is None),
        json_to_event(JsonView::Object(m)) matches Ok(e) ==> (m.contains_key("data"@)
            && e.datacontenttype is Some ==> e.data == Some(DataView::Json(m["data"@]))),
        json_to_event(JsonView::Object(m)) matches Ok(e) ==> (e.datacontenttype is Some
            <==> (m.contains_key("datacontenttype"@) && m["datacontenttype"@] is Str)),
{
}

/// The type of an echoed event is the event's type followed by `.echoed`,
/// whatever its length.
pub proof fn lemma_echoed_type_shape(ty: Seq<char>)
    ensures
        echoed(ty).len() == ty.len() + 7,
        echoed(ty).take(ty.len() as int) == ty,
        echoed(ty).skip(ty.len() as int) == ".echoed"@,
        ".echoed"@ == seq!['.', 'e', 'c', 'h', 'o', 'e', 'd'],
{
    reveal_strlit(".echoed");
    assert(".echoed"@ =~= seq!['.', 'e', 'c', 'h', 'o', 'e', 'd']);
    assert(echoed(ty).take(ty.len() as int) =~= ty);
    assert(echoed(ty).skip(ty.len() as int) =~= ".echoed"@);
}

/// Every variable is in the environment object, no other name is, and each
/// name holds the value of the last variable of that name.
pub proof fn lemma_env_object_holds_every_variable(vars: Seq<(String, String)>)
    ensures
        forall|i: int| 0 <= i < vars.len() ==> #[trigger] env_object(vars).contains_key(vars[i].0@),
        forall|k: Seq<char>|
            #[trigger] env_object(vars).contains_key(k) ==> exists|i: int|
                0 <= i < vars.len() && vars[i].0@ == k,
        forall|i: int|
            0 <= i < vars.len() && (forall|j: int| i < j < vars.len() ==> vars[j].0@ != vars[i].0@)
                ==> #[trigger] env_object(vars)[vars[i].0@] == JsonView::Str(vars[i].1@),
    decreases vars.len(),
{
    if vars.len() > 0 {
        let init = vars.drop_last();
        lemma_env_object_holds_every_variable(init);
        let o = env_object(vars);
        assert forall|i: int| 0 <= i < vars.len() implies #[trigger] o.contains_key(vars[i].0@) by {
            if i < vars.len() - 1 {
                assert(init[i] == vars[i]);
                assert(env_object(init).contains_key(init[i].0@));
            }
        }
        assert forall|k: Seq<char>| #[trigger] o.contains_key(k) implies exists|i: int|
            0 <= i < vars.len() && vars[i].0@ == k by {
            if k != vars.last().0@ {
                assert(env_object(init).contains_key(k));
                let i = choose|i: int| 0 <= i < init.len() && init[i].0@ == k;
                assert(vars[i] == init[i]);
            } else {
                assert(vars[vars.len() - 1].0@ == k);
            }
        }
        assert forall|i: int|
            0 <= i < vars.len() && (forall|j: int| i < j < vars.len() ==> vars[j].0@ != vars[i].0@)
            implies #[trigger] o[vars[i].0@] == JsonView::Str(vars[i].1@) by {
            if i < vars.len() - 1 {
                assert(vars[vars.len() - 1].0@ != vars[i].0@);
                assert(init[i] == vars[i]);
                assert forall|j: int| i < j < init.len() implies init[j].0@ != init[i].0@ by {
                    assert(init[j] == vars[j]);
                }
            }
        }
    }
}

/// A segment without `/`, followed by `/` and the rest of a path: the rest
/// starts after it.
pub proof fn lemma_segment_then_rest(w: Seq<char>, r: Seq<char>)
    requires
        forall|i: int| 0 <= i < w.len() ==> w[i] != '/',
    ensures
        segment_len(w + seq!['/'] + r) == w.len(),
        first_segment(w + seq!['/'] + r) == w,
        after_segment(w + seq!['/'] + r) == r,
    decreases w.len(),
{
    let p = w + seq!['/'] + r;
    if w.len() > 0 {
        assert(p.drop_first() =~= w.drop_first() + seq!['/'] + r);
        lemma_segment_then_rest(w.drop_first(), r);
    } else {
        assert(p[0] == '/');
    }
    assert(p.take(w.len() as int) =~= w);
    assert(p.skip((w.len() + 1) as int) =~= r);
}

/// A path that is one segment without `/`: nothing follows it.
pub proof fn lemma_segment_alone(w: Seq<char>)
    requires
        forall|i: int| 0 <= i < w.len() ==> w[i] != '/',
    ensures
        segment_len(w) == w.len(),
        first_segment(w) == w,
        after_segment(w).len() == 0,
    decreases w.len(),
{
    if w.len() > 0 {
        assert(w.drop_first().len() < w.len());
        lemma_segment_alone(w.drop_first());
    }
    assert(w.take(w.len() as int) =~= w);
}

/// The segment that names a probe in its path.
pub open spec fn probe_name(probe: HealthProbe) -> Seq<char> {
    match probe {
        HealthProbe::Overall => Seq::empty(),
        HealthProbe::Started => "started"@,
        HealthProbe::Ready => "ready"@,
        HealthProbe::Live => "live"@,
    }
}

/// `GET /health/started`, `/health/ready` and `/health/live` reach their
/// probe, and a `/` ending the path does not change that.
pub proof fn lemma_probe_paths(probe: HealthProbe)
    requires
        probe != HealthProbe::Overall,
    ensures
        route_of("GET"@, "/health/"@ + probe_name(probe)) == Some(Endpoint::Health(probe)),
        route_of("GET"@, "/health/"@ + probe_name(probe) + "/"@) == Some(Endpoint::Health(probe)),
{
    reveal_strlit("GET");
    reveal_strlit("POST");
    reveal_strlit("/health/");
    reveal_strlit("/");
    reveal_strlit("health");
    reveal_strlit("env");
    reveal_strlit("started");
    reveal_strlit("ready");
    reveal_strlit("live");
    assert("GET"@.len() != "POST"@.len());
    assert("health"@.len() != "env"@.len());
    assert("started"@.len() != "ready"@.len());
    assert("started"@.len() != "live"@.len());
    assert("ready"@.len() != "live"@.len());
    let s = probe_name(probe);
    let h = "health"@;
    assert(forall|i: int| 0 <= i < h.len() ==> h[i] != '/');
    assert(forall|i: int| 0 <= i < s.len() ==> s[i] != '/');
    let bare = "/health/"@ + s;
    let slashed = "/health/"@ + s + "/"@;
    assert(bare.drop_first() =~= h + seq!['/'] + s);
    assert(slashed.drop_first() =~= h + seq!['/'] + (s + seq!['/']));
    lemma_segment_then_rest(h, s);
    lemma_segment_then_rest(h, s + seq!['/']);
    lemma_segment_alone(s);
    lemma_segment_then_rest(s, Seq::empty());
    assert(s + seq!['/'] =~= s + seq!['/'] + Seq::<char>::empty());
}

} // verus!

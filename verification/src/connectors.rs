//! Transfer parameters of the encoder-cache and KV connectors.
use crate::json::{self, JsonMap, JsonView};
use crate::text;
use vstd::prelude::*;

verus! {

/// Supported KV transfer protocols.
#[derive(Clone, Copy, Debug, PartialEq, Eq, Structural)]
pub enum KvConnector {
    /// NIXL peer-to-peer KV transfer.
    KvNixl,
    /// Shared storage, with no peer descriptor.
    KvSharedStorage,
}

/// Supported encoder-cache transfer protocols.
#[derive(Clone, Copy, Debug, PartialEq, Eq, Structural)]
pub enum EcConnector {
    /// NIXL peer-to-peer embedding transfer.
    EcNixl,
    /// Shared storage keyed by multimodal hash.
    EcSharedStorage,
}

impl Default for KvConnector {
    fn default() -> (r: Self)
        ensures
            r == KvConnector::KvSharedStorage,
    {
        KvConnector::KvSharedStorage
    }
}

impl Default for EcConnector {
    fn default() -> (r: Self)
        ensures
            r == EcConnector::EcSharedStorage,
    {
        EcConnector::EcSharedStorage
    }
}

impl KvConnector {
    /// What a prefill worker is told: decode is remote, and with a peer
    /// protocol the peer is not known yet.
    pub open spec fn prefill_fields(self) -> Map<Seq<char>, JsonView> {
        let shared = json::no_fields().insert("do_remote_decode"@, JsonView::Bool(true)).insert(
            "do_remote_prefill"@,
            JsonView::Bool(false),
        );
        match self {
            KvConnector::KvNixl => shared.insert("remote_engine_id"@, JsonView::Null).insert(
                "remote_block_ids"@,
                JsonView::Null,
            ).insert("remote_host"@, JsonView::Null).insert("remote_port"@, JsonView::Null),
            KvConnector::KvSharedStorage => shared,
        }
    }

    /// What a decode worker is told: the descriptor that prefill returned,
    /// with prefill marked as remote.
    pub open spec fn decode_fields(returned: Map<Seq<char>, JsonView>) -> Map<
        Seq<char>,
        JsonView,
    > {
        returned.insert("do_remote_decode"@, JsonView::Bool(false)).insert(
            "do_remote_prefill"@,
            JsonView::Bool(true),
        )
    }

    /// Build the parameters sent to a prefill worker.
    pub fn prefill_params(self) -> (r: serde_json::Value)
        ensures
            json::json_of(r) == JsonView::Object(self.prefill_fields()),
    {
        let mut params = json::new_members();
        json::put_member(&mut params, "do_remote_decode", json::json_bool(true));
        json::put_member(&mut params, "do_remote_prefill", json::json_bool(false));
        match self {
            KvConnector::KvNixl => {
                json::put_member(&mut params, "remote_engine_id", json::json_null());
                json::put_member(&mut params, "remote_block_ids", json::json_null());
                json::put_member(&mut params, "remote_host", json::json_null());
                json::put_member(&mut params, "remote_port", json::json_null());
            },
            KvConnector::KvSharedStorage => {},
        }
        json::json_object(params)
    }

    /// Build decode parameters from the descriptor returned by prefill.
    pub fn decode_params(self, returned: &JsonMap) -> (r: serde_json::Value)
        ensures
            json::json_of(r) == JsonView::Object(
                KvConnector::decode_fields(json::members_of(*returned)),
            ),
    {
        let mut params = json::copy_members(returned);
        json::put_member(&mut params, "do_remote_decode", json::json_bool(false));
        json::put_member(&mut params, "do_remote_prefill", json::json_bool(true));
        json::json_object(params)
    }
}

/// The members of an object in the order of their keys.
pub open spec fn listing(members: Map<Seq<char>, JsonView>) -> Seq<(Seq<char>, JsonView)> {
    choose|rows: Seq<(Seq<char>, JsonView)>| json::lists(rows, members)
}

/// The rows that carry a descriptor.
pub open spec fn described(rows: Seq<(Seq<char>, JsonView)>) -> Seq<(Seq<char>, JsonView)>
    decreases rows.len(),
{
    if rows.len() == 0 {
        Seq::empty()
    } else if rows.last().1 is Null {
        described(rows.drop_last())
    } else {
        described(rows.drop_last()).push(rows.last())
    }
}

/// The descriptors that one encode response offers, each with its hash.
pub open spec fn offered(response: Map<Seq<char>, JsonView>) -> Seq<(Seq<char>, JsonView)> {
    match json::field(response, "ec_transfer_params"@) {
        Some(JsonView::Object(params)) => described(listing(params)),
        _ => Seq::empty(),
    }
}

/// The descriptors that a row of encode responses offers, in order.
pub open spec fn offers(responses: Seq<Map<Seq<char>, JsonView>>) -> Seq<(Seq<char>, JsonView)>
    decreases responses.len(),
{
    if responses.len() == 0 {
        Seq::empty()
    } else {
        offers(responses.drop_last()) + offered(responses.last())
    }
}

/// The descriptors by hash, or the first hash for which an offer differs from
/// what was offered before.
pub open spec fn merged(rows: Seq<(Seq<char>, JsonView)>) -> Result<
    Map<Seq<char>, JsonView>,
    Seq<char>,
>
    decreases rows.len(),
{
    if rows.len() == 0 {
        Ok(json::no_fields())
    } else {
        match merged(rows.drop_last()) {
            Err(hash) => Err(hash),
            Ok(known) => {
                let (hash, descriptor) = rows.last();
                if known.contains_key(hash) && !json::json_same(known[hash], descriptor) {
                    Err(hash)
                } else {
                    Ok(known.insert(hash, descriptor))
                }
            },
        }
    }
}

/// What a row of responses holds.
pub open spec fn responses_of(responses: Seq<JsonMap>) -> Seq<Map<Seq<char>, JsonView>> {
    responses.map_values(|response: JsonMap| json::members_of(response))
}

/// The complaint about a hash with two descriptors.
pub open spec fn conflict_text(hash: Seq<char>) -> Seq<char> {
    "ec_transfer_params: conflicting descriptors for mm_hash '"@ + hash + "'"@
}

impl EcConnector {
    /// What is merged from encode responses: nothing with shared storage,
    /// and otherwise each offered descriptor, unless two differ.
    pub open spec fn merge(self, responses: Seq<Map<Seq<char>, JsonView>>) -> Result<
        Map<Seq<char>, JsonView>,
        Seq<char>,
    > {
        match self {
            EcConnector::EcSharedStorage => Ok(json::no_fields()),
            EcConnector::EcNixl => match merged(offers(responses)) {
                Ok(descriptors) => Ok(descriptors),
                Err(hash) => Err(conflict_text(hash)),
            },
        }
    }
}

proof fn text_before_irreflexive(a: Seq<char>)
    ensures
        !json::text_before(a, a),
    decreases a.len(),
{
    if a.len() > 0 {
        text_before_irreflexive(a.skip(1));
    }
}

proof fn text_before_transitive(a: Seq<char>, b: Seq<char>, c: Seq<char>)
    requires
        json::text_before(a, b),
        json::text_before(b, c),
    ensures
        json::text_before(a, c),
    decreases a.len(),
{
    if a.len() > 0 && a[0] == b[0] && b[0] == c[0] {
        text_before_transitive(a.skip(1), b.skip(1), c.skip(1));
    }
}

/// Two listings of the same members agree up to any position.
proof fn listings_agree(
    a: Seq<(Seq<char>, JsonView)>,
    b: Seq<(Seq<char>, JsonView)>,
    members: Map<Seq<char>, JsonView>,
    at: int,
)
    requires
        json::lists(a, members),
        json::lists(b, members),
        0 <= at <= a.len(),
    ensures
        at <= b.len(),
        forall|i: int| 0 <= i < at ==> a[i] == b[i],
    decreases at,
{
    if at > 0 {
        let i = at - 1;
        listings_agree(a, b, members, i);
        assert(members.contains_key(a[i].0));
        let k = choose|k: int| 0 <= k < b.len() && #[trigger] b[k].0 == a[i].0;
        if k < i {
            assert(a[k] == b[k]);
            text_before_irreflexive(a[i].0);
            assert(json::text_before(a[k].0, a[i].0));
        }
        assert(i <= k);
        if k > i {
            assert(members.contains_key(b[i].0));
            let m = choose|m: int| 0 <= m < a.len() && #[trigger] a[m].0 == b[i].0;
            assert(json::text_before(b[i].0, b[k].0));
            if m < i {
                assert(a[m] == b[m]);
                text_before_irreflexive(b[i].0);
                assert(json::text_before(b[m].0, b[i].0));
            }
            text_before_irreflexive(a[i].0);
            if m > i {
                assert(json::text_before(a[i].0, a[m].0));
                text_before_transitive(a[i].0, a[m].0, b[k].0);
            }
        }
        assert(b[i].0 == a[i].0);
        assert(members.contains_key(b[i].0));
    }
}

/// A listing of members is the only one.
pub proof fn listing_is_unique(
    rows: Seq<(Seq<char>, JsonView)>,
    members: Map<Seq<char>, JsonView>,
)
    requires
        json::lists(rows, members),
    ensures
        rows == listing(members),
{
    let other = listing(members);
    assert(json::lists(other, members));
    listings_agree(rows, other, members, rows.len() as int);
    listings_agree(other, rows, members, other.len() as int);
    assert(rows =~= other);
}

proof fn described_split(rows: Seq<(Seq<char>, JsonView)>, at: int)
    requires
        0 <= at < rows.len(),
    ensures
        described(rows.take(at + 1)) == if rows[at].1 is Null {
            described(rows.take(at))
        } else {
            described(rows.take(at)).push(rows[at])
        },
{
    assert(rows.take(at + 1).drop_last() =~= rows.take(at));
}

proof fn merged_prefix(rows: Seq<(Seq<char>, JsonView)>, more: Seq<(Seq<char>, JsonView)>)
    requires
        merged(rows) is Err,
    ensures
        merged(rows + more) == merged(rows),
    decreases more.len(),
{
    if more.len() == 0 {
        assert(rows + more =~= rows);
    } else {
        merged_prefix(rows, more.drop_last());
        assert((rows + more).drop_last() =~= rows + more.drop_last());
    }
}

/// Whether the parameters of a response, if it has any, have a listing.
pub open spec fn is_listed(response: Map<Seq<char>, JsonView>) -> bool {
    json::field(response, "ec_transfer_params"@) matches Some(JsonView::Object(params))
        ==> json::lists(listing(params), params)
}

/// Whether the parameters of each response have a listing.
pub open spec fn all_listed(responses: Seq<Map<Seq<char>, JsonView>>) -> bool {
    forall|i: int| 0 <= i < responses.len() ==> is_listed(#[trigger] responses[i])
}

/// The descriptors that encode responses offer, in order.
fn list_offers(responses: &Vec<JsonMap>) -> (r: Vec<(String, serde_json::Value)>)
    ensures
        json::rows_of(r@) == offers(responses_of(responses@)),
        all_listed(responses_of(responses@)),
{
    let ghost all = responses_of(responses@);
    let mut found: Vec<(String, serde_json::Value)> = Vec::new();
    let mut i: usize = 0;
    proof {
        assert(json::rows_of(found@) =~= offers(all.take(0)));
    }
    while i < responses.len()
        invariant
            all == responses_of(responses@),
            i <= responses.len(),
            json::rows_of(found@) == offers(all.take(i as int)),
            forall|k: int| 0 <= k < i ==> is_listed(#[trigger] all[k]),
        decreases responses.len() - i,
    {
        let ghost done = offers(all.take(i as int));
        proof {
            assert(all.take(i + 1).drop_last() =~= all.take(i as int));
            assert(all.take(i + 1).last() == json::members_of(responses@[i as int]));
            assert(all[i as int] == json::members_of(responses@[i as int]));
        }
        let params = match json::get_member(&responses[i], "ec_transfer_params") {
            Some(value) => json::as_object(value),
            None => None,
        };
        match params {
            Some(params) => {
                let rows = json::list_members(params);
                let ghost list = json::rows_of(rows@);
                proof {
                    listing_is_unique(list, json::members_of(*params));
                    assert(list.take(0) =~= Seq::empty());
                    assert(done + described(list.take(0)) =~= done);
                }
                let mut j: usize = 0;
                while j < rows.len()
                    invariant
                        list == json::rows_of(rows@),
                        j <= rows.len(),
                        json::rows_of(found@) == done + described(list.take(j as int)),
                    decreases rows.len() - j,
                {
                    proof {
                        described_split(list, j as int);
                        assert(list[j as int] == (rows@[j as int].0@, json::json_of(
                            rows@[j as int].1,
                        )));
                    }
                    if !json::is_null(&rows[j].1) {
                        let ghost held = found@;
                        found.push((rows[j].0.clone(), json::copy_json(&rows[j].1)));
                        proof {
                            assert(json::rows_of(found@) =~= json::rows_of(held).push(
                                list[j as int],
                            ));
                            assert(json::rows_of(found@) =~= done + described(list.take(j + 1)));
                        }
                    }
                    j += 1;
                }
                proof {
                    assert(list.take(list.len() as int) =~= list);
                }
            },
            None => {
                proof {
                    assert(offers(all.take(i + 1)) =~= done);
                }
            },
        }
        i += 1;
    }
    proof {
        assert(all.take(all.len() as int) =~= all);
    }
    found
}

impl EcConnector {
    /// Merge encoder response descriptors for a later prefill request.
    ///
    /// # Errors
    ///
    /// Returns an error when two workers return different descriptors for the
    /// same multimodal hash.
    pub fn merge_encode_responses(self, responses: Vec<JsonMap>) -> (r: Result<JsonMap, String>)
        ensures
            json::members_result(r) == self.merge(responses_of(responses@)),
            self is EcNixl ==> all_listed(responses_of(responses@)),
    {
        if self == EcConnector::EcSharedStorage {
            return Ok(json::new_members());
        }
        let offered = list_offers(&responses);
        let ghost rows = json::rows_of(offered@);
        let mut known = json::new_members();
        let mut i: usize = 0;
        while i < offered.len()
            invariant
                self == EcConnector::EcNixl,
                rows == json::rows_of(offered@),
                rows == offers(responses_of(responses@)),
                all_listed(responses_of(responses@)),
                i <= offered.len(),
                merged(rows.take(i as int)) == Ok::<Map<Seq<char>, JsonView>, Seq<char>>(
                    json::members_of(known),
                ),
            decreases offered.len() - i,
        {
            let hash: &String = &offered[i].0;
            let descriptor: &serde_json::Value = &offered[i].1;
            proof {
                assert(rows[i as int] == (hash@, json::json_of(*descriptor)));
                assert(rows.take(i + 1).drop_last() =~= rows.take(i as int));
                assert(rows.take(i + 1).last() == rows[i as int]);
            }
            if let Some(previous) = json::get_member(&known, hash.as_str()) {
                if !json::equal_json(previous, descriptor) {
                    proof {
                        assert(merged(rows.take(i + 1)) is Err);
                        merged_prefix(rows.take(i + 1), rows.skip(i + 1));
                        assert(rows.take(i + 1) + rows.skip(i + 1) =~= rows);
                    }
                    return Err(
                        text::join3(
                            "ec_transfer_params: conflicting descriptors for mm_hash '",
                            hash.as_str(),
                            "'",
                        ),
                    );
                }
            }
            json::put_member(&mut known, hash.as_str(), json::copy_json(descriptor));
            i += 1;
        }
        proof {
            assert(rows.take(rows.len() as int) =~= rows);
        }
        Ok(known)
    }
}

/// Whether two offers for one hash differ.
pub open spec fn conflict(rows: Seq<(Seq<char>, JsonView)>) -> bool {
    exists|i: int, j: int|
        0 <= i < j < rows.len() && (#[trigger] rows[i]).0 == (#[trigger] rows[j]).0
            && !json::json_same(rows[i].1, rows[j].1)
}

/// Merging fails exactly where two offers for one hash differ. Where it
/// succeeds, the merged hashes are the offered ones, and the descriptor of
/// each is equal to every one offered for it.
pub proof fn merging_fails_exactly_on_conflict(rows: Seq<(Seq<char>, JsonView)>)
    ensures
        merged(rows) is Err <==> conflict(rows),
        merged(rows) matches Ok(known) ==> {
            &&& forall|hash: Seq<char>| #[trigger]
                known.contains_key(hash) <==> exists|i: int|
                    0 <= i < rows.len() && (#[trigger] rows[i]).0 == hash
            &&& forall|i: int|
                0 <= i < rows.len() ==> json::json_same(
                    (#[trigger] rows[i]).1,
                    known[rows[i].0],
                )
        },
    decreases rows.len(),
{
    if rows.len() > 0 {
        let head = rows.drop_last();
        let n = rows.len() - 1;
        merging_fails_exactly_on_conflict(head);
        match merged(head) {
            Err(_) => {
                let (i, j) = choose|i: int, j: int|
                    0 <= i < j < head.len() && (#[trigger] head[i]).0 == (#[trigger] head[j]).0
                        && !json::json_same(head[i].1, head[j].1);
                assert(rows[i] == head[i] && rows[j] == head[j]);
            },
            Ok(known) => {
                let (hash, descriptor) = rows[n];
                if known.contains_key(hash) && !json::json_same(known[hash], descriptor) {
                    let i = choose|i: int| 0 <= i < head.len() && (#[trigger] head[i]).0 == hash;
                    if json::json_same(head[i].1, descriptor) {
                        json::json_same_symmetric(head[i].1, known[hash]);
                        json::json_same_transitive(known[hash], head[i].1, descriptor);
                    }
                    assert(rows[i] == head[i]);
                    assert(conflict(rows));
                } else {
                    let next = known.insert(hash, descriptor);
                    assert forall|i: int| 0 <= i < rows.len() implies json::json_same(
                        (#[trigger] rows[i]).1,
                        next[rows[i].0],
                    ) by {
                        if i < n {
                            assert(head[i] == rows[i]);
                            if rows[i].0 == hash {
                                json::json_same_transitive(rows[i].1, known[hash], descriptor);
                            }
                        } else {
                            json::json_same_reflexive(descriptor);
                        }
                    }
                    assert forall|h: Seq<char>| #[trigger] next.contains_key(h) <==> exists|i: int|
                        0 <= i < rows.len() && (#[trigger] rows[i]).0 == h by {
                        if next.contains_key(h) {
                            if h == hash {
                                assert(rows[n].0 == h);
                            } else {
                                let i = choose|i: int|
                                    0 <= i < head.len() && (#[trigger] head[i]).0 == h;
                                assert(rows[i] == head[i]);
                            }
                        } else if exists|i: int|
                            0 <= i < rows.len() && (#[trigger] rows[i]).0 == h {
                            let i = choose|i: int|
                                0 <= i < rows.len() && (#[trigger] rows[i]).0 == h;
                            if i < n {
                                assert(head[i] == rows[i]);
                            }
                        }
                    }
                    if conflict(rows) {
                        let (i, j) = choose|i: int, j: int|
                            0 <= i < j < rows.len() && (#[trigger] rows[i]).0
                                == (#[trigger] rows[j]).0 && !json::json_same(
                                rows[i].1,
                                rows[j].1,
                            );
                        json::json_same_symmetric(rows[j].1, next[rows[j].0]);
                        json::json_same_transitive(rows[i].1, next[rows[i].0], rows[j].1);
                    }
                }
            },
        }
    }
}

/// The descriptor that a response offers for a hash, if it offers one.
pub open spec fn descriptor_in(response: Map<Seq<char>, JsonView>, hash: Seq<char>) -> Option<
    JsonView,
> {
    match json::field(response, "ec_transfer_params"@) {
        Some(JsonView::Object(params)) => match json::field(params, hash) {
            Some(descriptor) if !(descriptor is Null) => Some(descriptor),
            _ => None,
        },
        _ => None,
    }
}

/// Whether one of the responses offers this descriptor for a hash.
pub open spec fn offers_it(
    responses: Seq<Map<Seq<char>, JsonView>>,
    hash: Seq<char>,
    descriptor: JsonView,
) -> bool {
    exists|i: int|
        0 <= i < responses.len() && descriptor_in(#[trigger] responses[i], hash) == Some(descriptor)
}

/// Whether two descriptors that the responses offer for a hash differ.
pub open spec fn differ_on(responses: Seq<Map<Seq<char>, JsonView>>, hash: Seq<char>) -> bool {
    exists|a: JsonView, b: JsonView| #[trigger]
        offers_it(responses, hash, a) && #[trigger] offers_it(responses, hash, b)
            && !json::json_same(a, b)
}

proof fn described_rows(rows: Seq<(Seq<char>, JsonView)>, row: (Seq<char>, JsonView))
    ensures
        described(rows).contains(row) <==> rows.contains(row) && !(row.1 is Null),
    decreases rows.len(),
{
    if rows.len() > 0 {
        let head = rows.drop_last();
        described_rows(head, row);
        let all = described(rows);
        if head.contains(row) {
            let i = choose|i: int| 0 <= i < head.len() && head[i] == row;
            assert(rows[i] == row);
        }
        if rows.contains(row) && row != rows.last() {
            let i = choose|i: int| 0 <= i < rows.len() && rows[i] == row;
            assert(head[i] == row);
        }
        if row == rows.last() {
            assert(rows[rows.len() - 1] == row);
        }
        if !(rows.last().1 is Null) {
            let kept = described(head);
            assert(all == kept.push(rows.last()));
            if kept.contains(row) {
                let i = choose|i: int| 0 <= i < kept.len() && kept[i] == row;
                assert(all[i] == row);
            }
            if row == rows.last() {
                assert(all[all.len() - 1] == row);
            }
            if all.contains(row) && row != rows.last() {
                let i = choose|i: int| 0 <= i < all.len() && all[i] == row;
                assert(kept[i] == row);
            }
        }
    }
}

proof fn offered_rows(response: Map<Seq<char>, JsonView>, hash: Seq<char>, descriptor: JsonView)
    requires
        is_listed(response),
    ensures
        offered(response).contains((hash, descriptor)) <==> descriptor_in(response, hash) == Some(
            descriptor,
        ),
{
    if let Some(JsonView::Object(params)) = json::field(response, "ec_transfer_params"@) {
        let rows = listing(params);
        let row = (hash, descriptor);
        described_rows(rows, row);
        if rows.contains(row) {
            let i = choose|i: int| 0 <= i < rows.len() && rows[i] == row;
            assert(params.contains_key(rows[i].0));
        }
        if params.contains_key(hash) && params[hash] == descriptor {
            let i = choose|i: int| 0 <= i < rows.len() && #[trigger] rows[i].0 == hash;
            assert(params.contains_key(rows[i].0));
            assert(rows[i] == row);
        }
    }
}

proof fn offers_are(
    responses: Seq<Map<Seq<char>, JsonView>>,
    hash: Seq<char>,
    descriptor: JsonView,
)
    requires
        all_listed(responses),
    ensures
        offers(responses).contains((hash, descriptor)) <==> offers_it(responses, hash, descriptor),
    decreases responses.len(),
{
    if responses.len() > 0 {
        let head = responses.drop_last();
        let row = (hash, descriptor);
        assert forall|i: int| 0 <= i < head.len() implies is_listed(#[trigger] head[i]) by {
            assert(head[i] == responses[i]);
        }
        offers_are(head, hash, descriptor);
        let n = responses.len() - 1;
        offered_rows(responses[n], hash, descriptor);
        let (front, back) = (offers(head), offered(responses.last()));
        let all = offers(responses);
        assert(all == front + back);
        if all.contains(row) {
            let i = choose|i: int| 0 <= i < all.len() && all[i] == row;
            if i < front.len() {
                assert(front[i] == row);
                let k = choose|k: int|
                    0 <= k < head.len() && descriptor_in(#[trigger] head[k], hash) == Some(
                        descriptor,
                    );
                assert(descriptor_in(responses[k], hash) == Some(descriptor));
            } else {
                assert(back[i - front.len()] == row);
                assert(descriptor_in(responses[n], hash) == Some(descriptor));
            }
        }
        if offers_it(responses, hash, descriptor) {
            let k = choose|k: int|
                0 <= k < responses.len() && descriptor_in(#[trigger] responses[k], hash) == Some(
                    descriptor,
                );
            if k < n {
                assert(descriptor_in(head[k], hash) == Some(descriptor));
                let i = choose|i: int| 0 <= i < front.len() && front[i] == row;
                assert(all[i] == row);
            } else {
                let i = choose|i: int| 0 <= i < back.len() && back[i] == row;
                assert(all[front.len() + i] == row);
            }
        }
    }
}

/// Merging encode responses fails exactly where two of their descriptors for
/// one hash differ. Where it succeeds, the merged hashes are exactly those that
/// a response offers a descriptor for, and the descriptor of each is equal to
/// every one offered for it.
pub proof fn merging_takes_every_offer(responses: Seq<Map<Seq<char>, JsonView>>)
    requires
        all_listed(responses),
    ensures
        EcConnector::EcNixl.merge(responses) is Err <==> exists|hash: Seq<char>| #[trigger]
            differ_on(responses, hash),
        EcConnector::EcNixl.merge(responses) matches Ok(known) ==> {
            &&& forall|hash: Seq<char>| #[trigger]
                known.contains_key(hash) <==> exists|descriptor: JsonView| #[trigger]
                    offers_it(responses, hash, descriptor)
            &&& forall|hash: Seq<char>, descriptor: JsonView| #[trigger]
                offers_it(responses, hash, descriptor) ==> json::json_same(descriptor, known[hash])
        },
{
    let rows = offers(responses);
    merging_fails_exactly_on_conflict(rows);
    if conflict(rows) {
        let (i, j) = choose|i: int, j: int|
            0 <= i < j < rows.len() && (#[trigger] rows[i]).0 == (#[trigger] rows[j]).0
                && !json::json_same(rows[i].1, rows[j].1);
        let hash = rows[i].0;
        assert(rows.contains((hash, rows[i].1)));
        assert(rows[j] == (hash, rows[j].1));
        assert(rows.contains((hash, rows[j].1)));
        offers_are(responses, hash, rows[i].1);
        offers_are(responses, hash, rows[j].1);
        assert(differ_on(responses, hash));
    }
    assert forall|hash: Seq<char>| #[trigger] differ_on(responses, hash) implies conflict(rows) by {
        let (a, b) = choose|a: JsonView, b: JsonView| #[trigger]
            offers_it(responses, hash, a) && #[trigger] offers_it(responses, hash, b)
                && !json::json_same(a, b);
        offers_are(responses, hash, a);
        offers_are(responses, hash, b);
        let i = choose|i: int| 0 <= i < rows.len() && rows[i] == (hash, a);
        let j = choose|j: int| 0 <= j < rows.len() && rows[j] == (hash, b);
        if i == j {
            json::json_same_reflexive(a);
        } else if j < i {
            if json::json_same(b, a) {
                json::json_same_symmetric(b, a);
            }
            assert(rows[j].0 == rows[i].0);
        } else {
            assert(rows[i].0 == rows[j].0);
        }
    }
    if let Ok(known) = merged(rows) {
        assert forall|hash: Seq<char>| #[trigger] known.contains_key(hash) <==> exists|
            descriptor: JsonView,
        | #[trigger] offers_it(responses, hash, descriptor) by {
            if known.contains_key(hash) {
                let i = choose|i: int| 0 <= i < rows.len() && (#[trigger] rows[i]).0 == hash;
                assert(rows[i] == (hash, rows[i].1));
                offers_are(responses, hash, rows[i].1);
            }
            if exists|descriptor: JsonView| #[trigger] offers_it(responses, hash, descriptor) {
                let descriptor = choose|descriptor: JsonView| #[trigger]
                    offers_it(responses, hash, descriptor);
                offers_are(responses, hash, descriptor);
                let i = choose|i: int| 0 <= i < rows.len() && rows[i] == (hash, descriptor);
                assert(rows[i].0 == hash);
            }
        }
        assert forall|hash: Seq<char>, descriptor: JsonView| #[trigger]
            offers_it(responses, hash, descriptor) implies json::json_same(
            descriptor,
            known[hash],
        ) by {
            offers_are(responses, hash, descriptor);
            let i = choose|i: int| 0 <= i < rows.len() && rows[i] == (hash, descriptor);
            assert(json::json_same(rows[i].1, known[rows[i].0]));
        }
    }
}

/// In whatever order encode responses come, and however often each does,
/// merging them fails or gives the same hashes with equal descriptors.
pub proof fn merging_ignores_order(
    a: Seq<Map<Seq<char>, JsonView>>,
    b: Seq<Map<Seq<char>, JsonView>>,
)
    requires
        all_listed(a),
        all_listed(b),
        forall|response: Map<Seq<char>, JsonView>| #[trigger]
            a.contains(response) <==> b.contains(response),
    ensures
        EcConnector::EcNixl.merge(a) is Err <==> EcConnector::EcNixl.merge(b) is Err,
        EcConnector::EcNixl.merge(a) matches Ok(one) ==> EcConnector::EcNixl.merge(b) matches Ok(
            other,
        ) && one.dom() == other.dom() && forall|hash: Seq<char>| #[trigger]
            one.contains_key(hash) ==> json::json_same(one[hash], other[hash]),
{
    assert forall|hash: Seq<char>, descriptor: JsonView| #[trigger]
        offers_it(a, hash, descriptor) <==> offers_it(b, hash, descriptor) by {
        if offers_it(a, hash, descriptor) {
            offers_carry_over(a, b, hash, descriptor);
        }
        if offers_it(b, hash, descriptor) {
            offers_carry_over(b, a, hash, descriptor);
        }
    }
    merging_takes_every_offer(a);
    merging_takes_every_offer(b);
    assert forall|hash: Seq<char>| #[trigger] differ_on(a, hash) <==> differ_on(b, hash) by {
        if differ_on(a, hash) {
            let (x, y) = choose|x: JsonView, y: JsonView| #[trigger]
                offers_it(a, hash, x) && #[trigger] offers_it(a, hash, y) && !json::json_same(x, y);
            assert(offers_it(b, hash, x) && offers_it(b, hash, y));
        }
        if differ_on(b, hash) {
            let (x, y) = choose|x: JsonView, y: JsonView| #[trigger]
                offers_it(b, hash, x) && #[trigger] offers_it(b, hash, y) && !json::json_same(x, y);
            assert(offers_it(a, hash, x) && offers_it(a, hash, y));
        }
    }
    if let Ok(one) = EcConnector::EcNixl.merge(a) {
        if exists|hash: Seq<char>| #[trigger] differ_on(b, hash) {
            let hash = choose|hash: Seq<char>| #[trigger] differ_on(b, hash);
            assert(differ_on(a, hash));
        }
        let other = EcConnector::EcNixl.merge(b)->Ok_0;
        assert forall|hash: Seq<char>| #[trigger]
            one.contains_key(hash) <==> other.contains_key(hash) by {
            if one.contains_key(hash) {
                let d = choose|d: JsonView| #[trigger] offers_it(a, hash, d);
                assert(offers_it(b, hash, d));
            }
            if other.contains_key(hash) {
                let d = choose|d: JsonView| #[trigger] offers_it(b, hash, d);
                assert(offers_it(a, hash, d));
            }
        }
        assert(one.dom() =~= other.dom());
        assert forall|hash: Seq<char>| #[trigger] one.contains_key(hash) implies json::json_same(
            one[hash],
            other[hash],
        ) by {
            let d = choose|d: JsonView| #[trigger] offers_it(a, hash, d);
            assert(offers_it(b, hash, d));
            json::json_same_symmetric(d, one[hash]);
            json::json_same_transitive(one[hash], d, other[hash]);
        }
    } else {
        let hash = choose|hash: Seq<char>| #[trigger] differ_on(a, hash);
        assert(differ_on(b, hash));
    }
}

proof fn offers_carry_over(
    a: Seq<Map<Seq<char>, JsonView>>,
    b: Seq<Map<Seq<char>, JsonView>>,
    hash: Seq<char>,
    descriptor: JsonView,
)
    requires
        forall|response: Map<Seq<char>, JsonView>| #[trigger]
            a.contains(response) <==> b.contains(response),
        offers_it(a, hash, descriptor),
    ensures
        offers_it(b, hash, descriptor),
{
    let i = choose|i: int|
        0 <= i < a.len() && descriptor_in(#[trigger] a[i], hash) == Some(descriptor);
    assert(a.contains(a[i]));
    let j = choose|j: int| 0 <= j < b.len() && b[j] == a[i];
    assert(descriptor_in(b[j], hash) == Some(descriptor));
}

/// With shared storage no encode response contributes anything.
pub proof fn shared_storage_ignores_responses(responses: Seq<Map<Seq<char>, JsonView>>)
    ensures
        EcConnector::EcSharedStorage.merge(responses) == Ok::<Map<Seq<char>, JsonView>, Seq<char>>(
            json::no_fields(),
        ),
{
}

/// Decode is told everything that prefill returned, but for the two marks
/// that say which stage is remote.
pub proof fn decode_keeps_the_descriptor(returned: Map<Seq<char>, JsonView>, key: Seq<char>)
    requires
        key != "do_remote_decode"@,
        key != "do_remote_prefill"@,
    ensures
        json::field(KvConnector::decode_fields(returned), key) == json::field(returned, key),
{
}

/// Exactly one of the two stages is remote: decode in what prefill is told,
/// prefill in what decode is told, whatever the descriptor says.
pub proof fn remote_marks_alternate(connector: KvConnector, returned: Map<Seq<char>, JsonView>)
    ensures
        json::field(connector.prefill_fields(), "do_remote_decode"@) == Some(JsonView::Bool(true)),
        json::field(connector.prefill_fields(), "do_remote_prefill"@) == Some(
            JsonView::Bool(false),
        ),
        json::field(KvConnector::decode_fields(returned), "do_remote_decode"@) == Some(
            JsonView::Bool(false),
        ),
        json::field(KvConnector::decode_fields(returned), "do_remote_prefill"@) == Some(
            JsonView::Bool(true),
        ),
{
    reveal_strlit("do_remote_decode");
    reveal_strlit("do_remote_prefill");
    reveal_strlit("remote_engine_id");
    reveal_strlit("remote_block_ids");
    reveal_strlit("remote_host");
    reveal_strlit("remote_port");
    assert("do_remote_decode"@[0] != "remote_engine_id"@[0]);
    assert("do_remote_decode"@[0] != "remote_block_ids"@[0]);
    assert("do_remote_decode"@.len() != "do_remote_prefill"@.len());
    assert("do_remote_decode"@.len() != "remote_host"@.len());
    assert("do_remote_decode"@.len() != "remote_port"@.len());
    assert("do_remote_prefill"@.len() != "remote_engine_id"@.len());
    assert("do_remote_prefill"@.len() != "remote_block_ids"@.len());
    assert("do_remote_prefill"@.len() != "remote_host"@.len());
    assert("do_remote_prefill"@.len() != "remote_port"@.len());
}

} // verus!

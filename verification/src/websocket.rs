//! The broadcast hub: a registry of subscribers, each owning an outbound
//! tokio channel, and a `publish` operation that renders one envelope and
//! offers it to every registered subscriber exactly once, best-effort.
use vstd::prelude::*;

use crate::game::{tile_at, GameState, TileState, WinCondition};
use tokio::sync::mpsc::UnboundedSender;
use tokio_tungstenite::tungstenite::Message;

verus! {

#[verifier::external_type_specification]
#[verifier::external_body]
#[verifier::reject_recursive_types(T)]
pub struct ExUnboundedSender<T>(UnboundedSender<T>);

#[verifier::external_type_specification]
#[verifier::external_body]
pub struct ExMessage(Message);

/// The quoted, escaped JSON text of a string: what serde_json writes for it.
pub uninterp spec fn json_string_of(s: Seq<char>) -> Seq<char>;

/// Relies on serde_json::to_string on a string slice: its result is the
/// quoted, escaped JSON text of that string, a function of the characters
/// alone. It always succeeds: a string slice serializes into an in-memory
/// buffer whose writes cannot fail.
#[verifier::external_body]
fn json_string(s: &str) -> (r: Option<String>)
    ensures
        r is Some,
        r matches Some(j) ==> j@ == json_string_of(s@),
{
    serde_json::to_string(s).ok()
}

/// Relies on tokio's UnboundedSender::send: it never blocks, and either
/// queues one text message for the receiving side or fails because the
/// receiver is gone. Nothing is assumed of which of the two happens.
#[verifier::external_body]
fn send_text(sender: &UnboundedSender<Message>, text: &str) -> (delivered: bool) {
    sender.send(Message::Text(text.into())).is_ok()
}

/// The unit of publication: a topic and a payload, both carried as text,
/// the payload already in its serialized form and opaque to the hub.
#[derive(Debug, Clone)]
pub struct WebSocketMessage {
    pub topic: String,
    pub payload: String,
}

/// A registered subscriber: an identity and the outbound channel owned by
/// the connection handler that created it.
#[derive(Debug)]
pub struct WebSocketClient {
    pub id: u128,
    pub sender: UnboundedSender<Message>,
}

/// The registry of currently connected subscribers, keyed by id.
pub struct WebSocketManager {
    clients: Vec<WebSocketClient>,
}

/// The ids of a sequence of subscribers, in registry order.
pub open spec fn id_seq(s: Seq<WebSocketClient>) -> Seq<u128> {
    s.map_values(|c: WebSocketClient| c.id)
}

/// Some subscriber in `s` carries this id.
pub open spec fn has_id(s: Seq<WebSocketClient>, id: u128) -> bool {
    exists|i: int| 0 <= i < s.len() && s[i].id == id
}

/// No two subscribers share an id.
pub open spec fn unique_ids(s: Seq<WebSocketClient>) -> bool {
    forall|i: int, j: int| 0 <= i < j < s.len() ==> s[i].id != s[j].id
}

/// The position of the subscriber carrying `id`.
pub open spec fn index_of_id(s: Seq<WebSocketClient>, id: u128) -> int {
    choose|i: int| 0 <= i < s.len() && s[i].id == id
}

/// How many times `id` occurs in `ids`.
pub open spec fn count_of(ids: Seq<u128>, id: u128) -> nat
    decreases ids.len(),
{
    if ids.len() == 0 {
        0
    } else {
        (if ids.last() == id {
            1nat
        } else {
            0nat
        }) + count_of(ids.drop_last(), id)
    }
}

/// The serialized envelope: exactly what serde_json writes for a struct of
/// a `topic` string field followed by a `payload` field whose serialized
/// form is the payload text itself.
pub open spec fn envelope_json(topic: Seq<char>, payload: Seq<char>) -> Seq<char> {
    "{\"topic\":"@ + json_string_of(topic) + ",\"payload\":"@ + payload + "}"@
}

/// Render the envelope for a topic and an already-serialized payload.
pub fn render_envelope(topic: &str, payload: &str) -> (r: String)
    ensures
        r@ == envelope_json(topic@, payload@),
{
    let tj = json_string(topic).unwrap();
    let mut out = String::from_str("{\"topic\":");
    out.append(tj.as_str());
    out.append(",\"payload\":");
    out.append(payload);
    out.append("}");
    proof {
        assert(out@ =~= envelope_json(topic@, payload@));
    }
    out
}

impl WebSocketManager {
    /// The registered subscribers, in registry order.
    pub closed spec fn subscribers(self) -> Seq<WebSocketClient> {
        self.clients@
    }

    /// Registered ids are unique.
    pub open spec fn wf(self) -> bool {
        unique_ids(self.subscribers())
    }

    /// An empty registry.
    pub fn new() -> (r: WebSocketManager)
        ensures
            r.subscribers() == Seq::<WebSocketClient>::empty(),
            r.wf(),
    {
        let r = WebSocketManager { clients: Vec::new() };
        proof {
            assert(r.clients@ =~= Seq::<WebSocketClient>::empty());
        }
        r
    }

    /// Register a subscriber under its id: appended when the id is new,
    /// replacing the previous entry when it is already present.
    pub fn add_client(&mut self, client: WebSocketClient)
        requires
            old(self).wf(),
        ensures
            final(self).wf(),
            !has_id(old(self).subscribers(), client.id) ==> final(self).subscribers() == old(
                self,
            ).subscribers().push(client),
            has_id(old(self).subscribers(), client.id) ==> final(self).subscribers() == old(
                self,
            ).subscribers().update(index_of_id(old(self).subscribers(), client.id), client),
            has_id(final(self).subscribers(), client.id),
    {
        let ghost s = self.clients@;
        let mut i: usize = 0;
        while i < self.clients.len()
            invariant
                s == old(self).subscribers(),
                unique_ids(s),
                self.clients@ == s,
                i <= s.len(),
                forall|k: int| 0 <= k < i ==> s[k].id != client.id,
            decreases s.len() - i,
        {
            if self.clients[i].id == client.id {
                proof {
                    assert(s[i as int].id == client.id);
                    assert(has_id(s, client.id));
                    let w = index_of_id(s, client.id);
                    assert(0 <= w < s.len() && s[w].id == client.id);
                    if w < i as int {
                        assert(s[w].id != s[i as int].id);
                    } else if (i as int) < w {
                        assert(s[i as int].id != s[w].id);
                    }
                    assert(w == i as int);
                }
                self.clients[i] = client;
                proof {
                    let t = self.clients@;
                    assert(t == s.update(i as int, client));
                    assert(t[i as int].id == client.id);
                    assert(has_id(t, client.id));
                    assert forall|k: int| 0 <= k < t.len() implies t[k].id == s[k].id by {
                        if k != i as int {
                            assert(t[k] == s[k]);
                        }
                    }
                    assert forall|p: int, q: int| 0 <= p < q < t.len() implies t[p].id
                        != t[q].id by {
                        assert(s[p].id != s[q].id);
                    }
                }
                return ;
            }
            i += 1;
        }
        self.clients.push(client);
        proof {
            assert(self.clients@ == s.push(client));
            assert(self.clients@[s.len() as int].id == client.id);
            assert(!has_id(s, client.id));
            assert forall|p: int, q: int|
                0 <= p < q < self.clients@.len() implies self.clients@[p].id
                != self.clients@[q].id by {
                if q < s.len() {
                } else {
                    assert(self.clients@[q] == client);
                    assert(s[p].id != client.id);
                }
            }
        }
    }

    /// Remove the subscriber carrying this id, if any; already-removed ids
    /// are a no-op. No outbound channel is touched, so removal never waits
    /// on a subscriber's queue.
    pub fn remove_client(&mut self, client_id: u128)
        requires
            old(self).wf(),
        ensures
            final(self).wf(),
            !has_id(final(self).subscribers(), client_id),
            !has_id(old(self).subscribers(), client_id) ==> final(self).subscribers() == old(
                self,
            ).subscribers(),
            has_id(old(self).subscribers(), client_id) ==> final(self).subscribers() == old(
                self,
            ).subscribers().remove(index_of_id(old(self).subscribers(), client_id)),
    {
        let ghost s = self.clients@;
        let mut i: usize = 0;
        while i < self.clients.len()
            invariant
                s == old(self).subscribers(),
                unique_ids(s),
                self.clients@ == s,
                i <= s.len(),
                forall|k: int| 0 <= k < i ==> s[k].id != client_id,
            decreases s.len() - i,
        {
            if self.clients[i].id == client_id {
                proof {
                    assert(s[i as int].id == client_id);
                    assert(has_id(s, client_id));
                    let w = index_of_id(s, client_id);
                    assert(0 <= w < s.len() && s[w].id == client_id);
                    if w < i as int {
                        assert(s[w].id != s[i as int].id);
                    } else if (i as int) < w {
                        assert(s[i as int].id != s[w].id);
                    }
                    assert(w == i as int);
                }
                self.clients.remove(i);
                proof {
                    let t = self.clients@;
                    assert(t == s.remove(i as int));
                    assert forall|k: int| 0 <= k < t.len() implies t[k].id != client_id by {
                        if k < i {
                            assert(t[k] == s[k]);
                        } else {
                            assert(t[k] == s[k + 1]);
                        }
                    }
                    assert forall|p: int, q: int| 0 <= p < q < t.len() implies t[p].id
                        != t[q].id by {
                        if q < i {
                        } else if p < i {
                            assert(t[p] == s[p] && t[q] == s[q + 1]);
                        } else {
                            assert(t[p] == s[p + 1] && t[q] == s[q + 1]);
                        }
                    }
                }
                return ;
            }
            i += 1;
        }
    }

    /// The number of registered subscribers; advisory only.
    pub fn client_count(&self) -> (n: usize)
        ensures
            n == self.subscribers().len(),
    {
        self.clients.len()
    }

    /// Offer one already-rendered text to every registered subscriber, in
    /// registry order, and report the ids offered to. A failed delivery is
    /// dropped silently and stops nothing.
    pub fn broadcast_text(&self, text: &str) -> (ids: Vec<u128>)
        ensures
            ids@ == id_seq(self.subscribers()),
    {
        let mut ids: Vec<u128> = Vec::new();
        let mut i: usize = 0;
        while i < self.clients.len()
            invariant
                i <= self.clients@.len(),
                ids@ == id_seq(self.clients@.take(i as int)),
            decreases self.clients@.len() - i,
        {
            let client = &self.clients[i];
            let _ = send_text(&client.sender, text);
            ids.push(client.id);
            proof {
                assert(self.clients@.take(i + 1) =~= self.clients@.take(i as int).push(
                    self.clients@[i as int],
                ));
                assert(ids@ =~= id_seq(self.clients@.take(i + 1)));
            }
            i += 1;
        }
        proof {
            assert(self.clients@.take(self.clients@.len() as int) =~= self.clients@);
        }
        ids
    }

    /// Render the envelope for this topic and payload and offer it to every
    /// registered subscriber; the returned ids name them in registry order.
    /// Rendering always succeeds, so a publish never reports an error, on an
    /// empty registry included.
    pub fn publish(&self, topic: &str, payload: &str) -> (ids: Vec<u128>)
        ensures
            ids@ == id_seq(self.subscribers()),
    {
        let json = render_envelope(topic, payload);
        self.broadcast_text(json.as_str())
    }
}

/// The send-to-one primitive: render the envelope and offer it to a single
/// subscriber, registered or not. Initial-state sync hands a fresh
/// subscriber its snapshot through this before the subscriber goes live.
/// The result reports whether the subscriber's queue took the envelope; it
/// stays unconstrained, since it depends on the receiving side alone.
pub fn send_to(client: &WebSocketClient, topic: &str, payload: &str) -> (delivered: bool) {
    let json = render_envelope(topic, payload);
    send_text(&client.sender, json.as_str())
}

/// The serialized name of a tile state.
pub open spec fn tile_label(t: TileState) -> Seq<char> {
    match t {
        TileState::Empty => "Empty"@,
        TileState::X => "X"@,
        TileState::O => "O"@,
    }
}

/// The serialized name of a condition.
pub open spec fn condition_label(c: WinCondition) -> Seq<char> {
    match c {
        WinCondition::NoWin => "NoWin"@,
        WinCondition::XWin => "XWin"@,
        WinCondition::OWin => "OWin"@,
        WinCondition::Stalemate => "Stalemate"@,
    }
}

/// The serialized payload that announces one tile's state.
pub open spec fn tile_payload_text(t: TileState) -> Seq<char> {
    "{\"state\":\""@ + tile_label(t) + "\"}"@
}

/// The serialized payload that announces the condition.
pub open spec fn condition_payload_text(c: WinCondition) -> Seq<char> {
    "{\"condition\":\""@ + condition_label(c) + "\"}"@
}

/// The text of a coordinate digit.
pub open spec fn digit_label(d: int) -> Seq<char> {
    if d == 0 {
        "0"@
    } else if d == 1 {
        "1"@
    } else {
        "2"@
    }
}

/// The topic that names one tile.
pub open spec fn tile_topic_text(x: int, y: int) -> Seq<char> {
    "game.tile."@ + digit_label(x) + "."@ + digit_label(y)
}

/// The payload shape announcing one tile: its state's name.
#[derive(Debug, Clone)]
pub struct TileUpdate {
    pub state: String,
}

/// The payload shape announcing the game: its condition's name.
#[derive(Debug, Clone)]
pub struct StateUpdate {
    pub condition: String,
}

/// The name of a tile state, as the wire carries it.
fn tile_label_str(t: TileState) -> (r: &'static str)
    ensures
        r@ == tile_label(t),
{
    match t {
        TileState::Empty => "Empty",
        TileState::X => "X",
        TileState::O => "O",
    }
}

/// The name of a condition, as the wire carries it.
fn condition_label_str(c: WinCondition) -> (r: &'static str)
    ensures
        r@ == condition_label(c),
{
    match c {
        WinCondition::NoWin => "NoWin",
        WinCondition::XWin => "XWin",
        WinCondition::OWin => "OWin",
        WinCondition::Stalemate => "Stalemate",
    }
}

impl TileUpdate {
    /// The update announcing this tile state.
    pub fn from(state: TileState) -> (r: TileUpdate)
        ensures
            r.state@ == tile_label(state),
    {
        TileUpdate { state: String::from_str(tile_label_str(state)) }
    }
}

impl StateUpdate {
    /// The update announcing this condition.
    pub fn from(condition: WinCondition) -> (r: StateUpdate)
        ensures
            r.condition@ == condition_label(condition),
    {
        StateUpdate { condition: String::from_str(condition_label_str(condition)) }
    }
}

/// The text of one on-board coordinate.
fn digit_str(d: usize) -> (r: &'static str)
    requires
        d < 3,
    ensures
        r@ == digit_label(d as int),
{
    match d {
        0 => "0",
        1 => "1",
        _ => "2",
    }
}

/// The topic naming the tile at `(x, y)`.
pub fn tile_topic(x: usize, y: usize) -> (r: String)
    requires
        x < 3,
        y < 3,
    ensures
        r@ == tile_topic_text(x as int, y as int),
{
    let mut s = String::from_str("game.tile.");
    s.append(digit_str(x));
    s.append(".");
    s.append(digit_str(y));
    proof {
        assert(s@ =~= tile_topic_text(x as int, y as int));
    }
    s
}

/// The topic naming the whole game's condition.
pub fn state_topic() -> (r: String)
    ensures
        r@ == "game.state"@,
{
    String::from_str("game.state")
}

/// The serialized payload for one tile's state.
pub fn tile_payload(state: TileState) -> (r: String)
    ensures
        r@ == tile_payload_text(state),
{
    let u = TileUpdate::from(state);
    let mut s = String::from_str("{\"state\":\"");
    s.append(u.state.as_str());
    s.append("\"}");
    proof {
        assert(s@ =~= tile_payload_text(state));
    }
    s
}

/// The serialized payload for the condition.
pub fn condition_payload(condition: WinCondition) -> (r: String)
    ensures
        r@ == condition_payload_text(condition),
{
    let u = StateUpdate::from(condition);
    let mut s = String::from_str("{\"condition\":\"");
    s.append(u.condition.as_str());
    s.append("\"}");
    proof {
        assert(s@ =~= condition_payload_text(condition));
    }
    s
}

/// The envelopes a successful move fans out: the changed tile's, then the
/// condition's when the move changed it.
pub fn move_events(
    x: usize,
    y: usize,
    state: TileState,
    old_condition: WinCondition,
    new_condition: WinCondition,
) -> (r: Vec<WebSocketMessage>)
    requires
        x < 3,
        y < 3,
    ensures
        r@.len() == (if new_condition == old_condition {
            1int
        } else {
            2int
        }),
        r@[0].topic@ == tile_topic_text(x as int, y as int),
        r@[0].payload@ == tile_payload_text(state),
        new_condition != old_condition ==> r@[1].topic@ == "game.state"@ && r@[1].payload@
            == condition_payload_text(new_condition),
{
    let mut out: Vec<WebSocketMessage> = Vec::new();
    out.push(WebSocketMessage { topic: tile_topic(x, y), payload: tile_payload(state) });
    if new_condition != old_condition {
        out.push(
            WebSocketMessage { topic: state_topic(), payload: condition_payload(new_condition) },
        );
    }
    out
}

/// The full resync for one observer: every tile's envelope in row-major
/// order, then the condition's, all taken from one atomic snapshot.
pub fn snapshot_events(game: &GameState) -> (r: Vec<WebSocketMessage>)
    ensures
        r@.len() == 10,
        forall|i: int|
            0 <= i < 9 ==> (#[trigger] r@[i]).topic@ == tile_topic_text(i / 3, i % 3)
                && r@[i].payload@ == tile_payload_text(tile_at(game.tiles, i / 3, i % 3)),
        r@[9].topic@ == "game.state"@,
        r@[9].payload@ == condition_payload_text(game.win_condition),
{
    let (tiles, condition) = game.snapshot();
    let mut out: Vec<WebSocketMessage> = Vec::new();
    let mut k: usize = 0;
    while k < 9
        invariant
            tiles == game.tiles,
            condition == game.win_condition,
            k <= 9,
            out@.len() == k,
            forall|i: int|
                0 <= i < k ==> (#[trigger] out@[i]).topic@ == tile_topic_text(i / 3, i % 3)
                    && out@[i].payload@ == tile_payload_text(tile_at(game.tiles, i / 3, i % 3)),
        decreases 9 - k,
    {
        let x = k / 3;
        let y = k % 3;
        out.push(WebSocketMessage { topic: tile_topic(x, y), payload: tile_payload(tiles[x][y]) });
        k += 1;
    }
    out.push(WebSocketMessage { topic: state_topic(), payload: condition_payload(condition) });
    out
}

/// A publish on an empty registry offers its envelope to nobody.
pub proof fn lemma_publish_empty_registry(s: Seq<WebSocketClient>)
    requires
        s.len() == 0,
    ensures
        id_seq(s).len() == 0,
{
}

/// One publish offers its envelope exactly once to every registered
/// subscriber, and never to an id that is not registered.
pub proof fn lemma_publish_exactly_once(s: Seq<WebSocketClient>, id: u128)
    requires
        unique_ids(s),
    ensures
        has_id(s, id) ==> count_of(id_seq(s), id) == 1,
        !has_id(s, id) ==> count_of(id_seq(s), id) == 0,
    decreases s.len(),
{
    if s.len() == 0 {
        assert(id_seq(s).len() == 0);
    } else {
        let prefix = s.drop_last();
        assert(unique_ids(prefix));
        lemma_publish_exactly_once(prefix, id);
        assert(id_seq(s).drop_last() =~= id_seq(prefix));
        assert(id_seq(s).last() == s.last().id);
        if s.last().id == id {
            assert(s[s.len() - 1].id == id);
            assert(has_id(s, id));
            if has_id(prefix, id) {
                let w = choose|i: int| 0 <= i < prefix.len() && prefix[i].id == id;
                assert(s[w].id == id);
                assert(s[w].id != s[s.len() - 1].id);
                assert(false);
            }
            assert(count_of(id_seq(s), id) == 1 + count_of(id_seq(prefix), id));
        } else {
            assert(count_of(id_seq(s), id) == count_of(id_seq(prefix), id));
            if has_id(s, id) {
                let w = choose|i: int| 0 <= i < s.len() && s[i].id == id;
                assert(w < s.len() - 1);
                assert(prefix[w].id == id);
                assert(has_id(prefix, id));
            }
            if has_id(prefix, id) {
                let w = choose|i: int| 0 <= i < prefix.len() && prefix[i].id == id;
                assert(s[w].id == id);
                assert(has_id(s, id));
            }
        }
    }
}

/// After an unsubscribe, a publish offers nothing to the removed id.
pub proof fn lemma_removed_never_attempted(s: Seq<WebSocketClient>, id: u128)
    requires
        unique_ids(s),
        !has_id(s, id),
    ensures
        count_of(id_seq(s), id) == 0,
{
    lemma_publish_exactly_once(s, id);
}

} // verus!

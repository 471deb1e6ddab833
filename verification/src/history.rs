//! The history store: a persisted, expiration-filtered sequence of past
//! conversational turns, and its read path for the assembler.

use vstd::prelude::*;
use vstd::string::StringExecFns;

use crate::ichat::{Message, MessageView, Role};
use crate::path::FileInfo;

verus! {

/// One completed turn: when it finished (local wall-clock, whole seconds),
/// which backend produced it, what the user asked and what the assistant
/// answered. Created only when a turn completes successfully and never
/// mutated afterwards.
#[derive(Debug, Clone, PartialEq)]
pub struct HistoryMessage {
    pub date: i64,
    pub chat: String,
    pub user: String,
    pub assistant: String,
}

/// The mathematical value of a `HistoryMessage`.
#[verifier::ext_equal]
pub struct TurnView {
    pub date: i64,
    pub chat: Seq<char>,
    pub user: Seq<char>,
    pub assistant: Seq<char>,
}

impl View for HistoryMessage {
    type V = TurnView;

    open spec fn view(&self) -> TurnView {
        TurnView {
            date: self.date,
            chat: self.chat@,
            user: self.user@,
            assistant: self.assistant@,
        }
    }
}

impl DeepView for HistoryMessage {
    type V = TurnView;

    open spec fn deep_view(&self) -> TurnView {
        self@
    }
}

impl HistoryMessage {
    pub fn new(date: i64, chat: &str, user: &str, assistant: &str) -> (m: HistoryMessage)
        ensures
            m@ == (TurnView { date, chat: chat@, user: user@, assistant: assistant@ }),
    {
        HistoryMessage {
            date,
            chat: String::from_str(chat),
            user: String::from_str(user),
            assistant: String::from_str(assistant),
        }
    }

    /// A copy whose value is known to equal the original's.
    pub fn duplicate(&self) -> (m: HistoryMessage)
        ensures
            m@ == self@,
    {
        HistoryMessage {
            date: self.date,
            chat: self.chat.clone(),
            user: self.user.clone(),
            assistant: self.assistant.clone(),
        }
    }
}

/// Whether a turn stamped `date` is expired at time `now` under the given
/// threshold: strictly older than `expiration` seconds.
pub open spec fn is_expired_at(date: i64, now: i64, expiration: u32) -> bool {
    now - date > expiration
}

/// The turns that survive a load at time `now`: exactly those not expired,
/// in their original order.
pub open spec fn fresh_turns(turns: Seq<TurnView>, now: i64, expiration: u32) -> Seq<TurnView>
    decreases turns.len(),
{
    if turns.len() == 0 {
        Seq::empty()
    } else {
        let rest = fresh_turns(turns.drop_first(), now, expiration);
        if is_expired_at(turns[0].date, now, expiration) {
            rest
        } else {
            seq![turns[0]] + rest
        }
    }
}

proof fn lemma_fresh_turns_push(turns: Seq<TurnView>, x: TurnView, now: i64, expiration: u32)
    ensures
        fresh_turns(turns.push(x), now, expiration) == fresh_turns(turns, now, expiration) + (
        if is_expired_at(x.date, now, expiration) {
            Seq::<TurnView>::empty()
        } else {
            seq![x]
        }),
    decreases turns.len(),
{
    let tail = if is_expired_at(x.date, now, expiration) {
        Seq::<TurnView>::empty()
    } else {
        seq![x]
    };
    if turns.len() == 0 {
        assert(turns.push(x)[0] == x);
        assert(turns.push(x).drop_first() =~= Seq::<TurnView>::empty());
        assert(fresh_turns(Seq::<TurnView>::empty(), now, expiration) == Seq::<TurnView>::empty());
        assert(fresh_turns(turns, now, expiration) + tail =~= tail);
        if is_expired_at(x.date, now, expiration) {
        } else {
            assert(seq![x] + Seq::<TurnView>::empty() =~= seq![x]);
        }
    } else {
        assert(turns.push(x)[0] == turns[0]);
        assert(turns.push(x).drop_first() =~= turns.drop_first().push(x));
        lemma_fresh_turns_push(turns.drop_first(), x, now, expiration);
        if is_expired_at(turns[0].date, now, expiration) {
        } else {
            assert(seq![turns[0]] + (fresh_turns(turns.drop_first(), now, expiration) + tail) =~= (
            seq![turns[0]] + fresh_turns(turns.drop_first(), now, expiration)) + tail);
        }
    }
}

/// The flat message list the assembler consumes: one user message and one
/// assistant message per turn, in chronological order.
pub open spec fn completions_of(turns: Seq<TurnView>) -> Seq<MessageView>
    decreases turns.len(),
{
    if turns.len() == 0 {
        Seq::empty()
    } else {
        seq![
            MessageView { role: Role::User, content: turns[0].user },
            MessageView { role: Role::Assistant, content: turns[0].assistant },
        ] + completions_of(turns.drop_first())
    }
}

proof fn lemma_completions_push(turns: Seq<TurnView>, x: TurnView)
    ensures
        completions_of(turns.push(x)) == completions_of(turns) + seq![
            MessageView { role: Role::User, content: x.user },
            MessageView { role: Role::Assistant, content: x.assistant },
        ],
    decreases turns.len(),
{
    let pair = seq![
        MessageView { role: Role::User, content: x.user },
        MessageView { role: Role::Assistant, content: x.assistant },
    ];
    if turns.len() == 0 {
        assert(turns.push(x)[0] == x);
        assert(turns.push(x).drop_first() =~= Seq::<TurnView>::empty());
        assert(completions_of(Seq::<TurnView>::empty()) == Seq::<MessageView>::empty());
        assert(pair + Seq::<MessageView>::empty() =~= pair);
        assert(completions_of(turns) + pair =~= pair);
    } else {
        assert(turns.push(x)[0] == turns[0]);
        assert(turns.push(x).drop_first() =~= turns.drop_first().push(x));
        lemma_completions_push(turns.drop_first(), x);
        let head = seq![
            MessageView { role: Role::User, content: turns[0].user },
            MessageView { role: Role::Assistant, content: turns[0].assistant },
        ];
        assert(head + (completions_of(turns.drop_first()) + pair) =~= (head + completions_of(
            turns.drop_first(),
        )) + pair);
    }
}

/// The mathematical value of the store: its backing file, whether that file
/// existed, the expiration threshold in seconds, and the turns held in
/// memory.
#[verifier::ext_equal]
pub struct HistoryView {
    pub file: Seq<char>,
    pub exists: bool,
    pub expiration: u32,
    pub turns: Seq<TurnView>,
}

/// Owns the ordered sequence of past turns; insertion order is
/// chronological order. After a load every turn held in memory is fresh:
/// `now - date <= expiration` at the time of the load.
pub struct History {
    file: String,
    exists: bool,
    expiration: u32,
    messages: Vec<HistoryMessage>,
}

impl View for History {
    type V = HistoryView;

    closed spec fn view(&self) -> HistoryView {
        HistoryView {
            file: self.file@,
            exists: self.exists,
            expiration: self.expiration,
            turns: self.messages.deep_view(),
        }
    }
}

/// Relies on chrono::Local::now: the current local wall-clock time in whole
/// seconds. Nothing is promised of the value; callers state what holds
/// whatever time comes back.
#[verifier::external_body]
fn now_seconds() -> i64 {
    chrono::Local::now().naive_local().and_utc().timestamp()
}

impl History {
    /// An empty store over the given backing file.
    pub fn new(config: FileInfo, expiration: u32) -> (h: History)
        ensures
            h@ == (HistoryView {
                file: config.path@,
                exists: config.exists,
                expiration,
                turns: Seq::empty(),
            }),
    {
        let h = History { file: config.path, exists: config.exists, expiration, messages: Vec::new() };
        proof {
            assert(h@ =~= HistoryView {
                file: config.path@,
                exists: config.exists,
                expiration,
                turns: Seq::empty(),
            });
        }
        h
    }

    /// The backing file's path, for the caller that reads and writes it.
    pub fn file(&self) -> (r: &str)
        ensures
            r@ == self@.file,
    {
        self.file.as_str()
    }

    /// Whether the backing file existed when the store was created.
    pub fn file_exists(&self) -> (r: bool)
        ensures
            r == self@.exists,
    {
        self.exists
    }

    /// Takes in the persisted sequence — `None` when the backing file does
    /// not exist — and retains, behind the turns already held, exactly the
    /// turns that are not expired at time `now`. A missing file leaves the
    /// store unchanged.
    pub fn load(&mut self, persisted: Option<Vec<HistoryMessage>>, now: i64)
        ensures
            final(self)@.file == old(self)@.file,
            final(self)@.exists == old(self)@.exists,
            final(self)@.expiration == old(self)@.expiration,
            match persisted {
                None => final(self)@.turns == old(self)@.turns,
                Some(turns) => final(self)@.turns == old(self)@.turns + fresh_turns(
                    turns.deep_view(),
                    now,
                    old(self)@.expiration,
                ),
            },
    {
        match persisted {
            None => {},
            Some(turns) => {
                let ghost base = self@.turns;
                let ghost tv = turns.deep_view();
                let mut i: usize = 0;
                proof {
                    assert(fresh_turns(tv.take(0), now, self@.expiration)
                        =~= Seq::<TurnView>::empty());
                    assert(self@.turns =~= base + fresh_turns(tv.take(0), now, self@.expiration));
                }
                while i < turns.len()
                    invariant
                        i <= turns.len(),
                        tv == turns.deep_view(),
                        self@.file == old(self)@.file,
                        self@.exists == old(self)@.exists,
                        self@.expiration == old(self)@.expiration,
                        self@.turns == base + fresh_turns(tv.take(i as int), now, self@.expiration),
                    decreases turns.len() - i,
                {
                    let ghost pturns = self@.turns;
                    let expired = self.is_expired(turns[i].date, now);
                    if !expired {
                        let m = turns[i].duplicate();
                        self.messages.push(m);
                        proof {
                            assert(self@.turns =~= pturns.push(tv[i as int]));
                        }
                    }
                    proof {
                        assert(tv.take(i + 1) =~= tv.take(i as int).push(tv[i as int]));
                        lemma_fresh_turns_push(tv.take(i as int), tv[i as int], now, self@.expiration);
                        if is_expired_at(tv[i as int].date, now, self@.expiration) {
                            assert(fresh_turns(tv.take(i as int), now, self@.expiration)
                                + Seq::<TurnView>::empty() =~= fresh_turns(
                                tv.take(i as int),
                                now,
                                self@.expiration,
                            ));
                        } else {
                            assert(base + (fresh_turns(tv.take(i as int), now, self@.expiration)
                                + seq![tv[i as int]]) =~= (base + fresh_turns(
                                tv.take(i as int),
                                now,
                                self@.expiration,
                            )).push(tv[i as int]));
                        }
                    }
                    i = i + 1;
                }
                proof {
                    assert(tv.take(turns.len() as int) =~= tv);
                }
            },
        }
    }

    /// Appends a turn stamped `date`. The backend name is never validated
    /// against a known set.
    pub fn add_stamped(&mut self, date: i64, chat: &str, user: &str, assistant: &str)
        ensures
            final(self)@.file == old(self)@.file,
            final(self)@.exists == old(self)@.exists,
            final(self)@.expiration == old(self)@.expiration,
            final(self)@.turns == old(self)@.turns.push(
                TurnView { date, chat: chat@, user: user@, assistant: assistant@ },
            ),
    {
        let m = HistoryMessage::new(date, chat, user, assistant);
        let ghost pturns = self@.turns;
        self.messages.push(m);
        proof {
            assert(self@.turns =~= pturns.push(
                TurnView { date, chat: chat@, user: user@, assistant: assistant@ },
            ));
        }
    }

    /// Appends a turn stamped with the current local time.
    pub fn add(&mut self, chat: &str, user: &str, assistant: &str)
        ensures
            final(self)@.file == old(self)@.file,
            final(self)@.exists == old(self)@.exists,
            final(self)@.expiration == old(self)@.expiration,
            final(self)@.turns.len() == old(self)@.turns.len() + 1,
            final(self)@.turns.take(old(self)@.turns.len() as int) == old(self)@.turns,
            final(self)@.turns.last().chat == chat@,
            final(self)@.turns.last().user == user@,
            final(self)@.turns.last().assistant == assistant@,
    {
        let now = now_seconds();
        self.add_stamped(now, chat, user, assistant);
        proof {
            assert(final(self)@.turns.take(old(self)@.turns.len() as int) =~= old(self)@.turns);
        }
    }

    /// Hands back the full in-memory sequence for persisting; the stored
    /// sequence is already expiration-filtered.
    pub fn save(&self) -> (out: Vec<HistoryMessage>)
        ensures
            out.deep_view() == self@.turns,
    {
        let mut out: Vec<HistoryMessage> = Vec::new();
        let mut i: usize = 0;
        proof {
            assert(out.deep_view() =~= self@.turns.take(0));
        }
        while i < self.messages.len()
            invariant
                i <= self.messages.len(),
                self@.turns.len() == self.messages.len(),
                out.deep_view() == self@.turns.take(i as int),
            decreases self.messages.len() - i,
        {
            let ghost pdv = out.deep_view();
            let m = self.messages[i].duplicate();
            let ghost mv = m@;
            out.push(m);
            proof {
                assert(out.deep_view() =~= pdv.push(mv));
                assert(self@.turns.take(i + 1) =~= self@.turns.take(i as int).push(
                    self@.turns[i as int],
                ));
            }
            i = i + 1;
        }
        proof {
            assert(self@.turns.take(self.messages.len() as int) =~= self@.turns);
        }
        out
    }

    /// Whether a turn stamped `date` is expired at time `now`, under this
    /// store's threshold: strictly older than `expiration` seconds.
    pub fn is_expired(&self, date: i64, now: i64) -> (r: bool)
        ensures
            r == is_expired_at(date, now, self@.expiration),
    {
        let diff: i128 = (now as i128) - (date as i128);
        diff > (self.expiration as i128)
    }

    /// Empties the in-memory sequence; the backing file is untouched until
    /// the next save.
    pub fn clear(&mut self)
        ensures
            final(self)@.file == old(self)@.file,
            final(self)@.exists == old(self)@.exists,
            final(self)@.expiration == old(self)@.expiration,
            final(self)@.turns == Seq::<TurnView>::empty(),
    {
        self.messages.clear();
        proof {
            assert(final(self)@.turns =~= Seq::<TurnView>::empty());
        }
    }

    /// The in-memory sequence as a flat message list — the only read path
    /// other components use.
    pub fn get_completions(&self) -> (out: Vec<Message>)
        ensures
            out.deep_view() == completions_of(self@.turns),
    {
        let mut out: Vec<Message> = Vec::new();
        let mut i: usize = 0;
        proof {
            assert(completions_of(self@.turns.take(0)) =~= Seq::<MessageView>::empty());
            assert(out.deep_view() =~= completions_of(self@.turns.take(0)));
        }
        while i < self.messages.len()
            invariant
                i <= self.messages.len(),
                self@.turns.len() == self.messages.len(),
                out.deep_view() == completions_of(self@.turns.take(i as int)),
            decreases self.messages.len() - i,
        {
            let ghost pdv = out.deep_view();
            let ghost t = self@.turns[i as int];
            let user = Message::new(Role::User, self.messages[i].user.clone());
            out.push(user);
            let assistant = Message::new(Role::Assistant, self.messages[i].assistant.clone());
            out.push(assistant);
            proof {
                assert(out.deep_view() =~= pdv + seq![
                    MessageView { role: Role::User, content: t.user },
                    MessageView { role: Role::Assistant, content: t.assistant },
                ]);
                assert(self@.turns.take(i + 1) =~= self@.turns.take(i as int).push(t));
                lemma_completions_push(self@.turns.take(i as int), t);
            }
            i = i + 1;
        }
        proof {
            assert(self@.turns.take(self.messages.len() as int) =~= self@.turns);
        }
        out
    }
}

/// Loading a persisted sequence none of whose turns is expired keeps it
/// whole and in order: an immediate save hands back exactly what was read.
pub proof fn lemma_load_save_identity(turns: Seq<TurnView>, now: i64, expiration: u32)
    requires
        forall|i: int| 0 <= i < turns.len() ==> !is_expired_at(turns[i].date, now, expiration),
    ensures
        fresh_turns(turns, now, expiration) == turns,
    decreases turns.len(),
{
    if turns.len() == 0 {
        assert(fresh_turns(turns, now, expiration) =~= turns);
    } else {
        lemma_load_save_identity(turns.drop_first(), now, expiration);
        assert(seq![turns[0]] + turns.drop_first() =~= turns);
    }
}

/// A load keeps exactly the turns that are not expired: a turn is in the
/// loaded sequence if and only if it stood in the persisted sequence and is
/// not strictly older than the threshold.
pub proof fn lemma_load_membership(turns: Seq<TurnView>, now: i64, expiration: u32, t: TurnView)
    ensures
        fresh_turns(turns, now, expiration).contains(t) <==> (turns.contains(t) && !is_expired_at(
            t.date,
            now,
            expiration,
        )),
    decreases turns.len(),
{
    if turns.len() == 0 {
        assert(!turns.contains(t));
        assert(!fresh_turns(turns, now, expiration).contains(t));
    } else {
        lemma_load_membership(turns.drop_first(), now, expiration, t);
        let rest = fresh_turns(turns.drop_first(), now, expiration);
        assert(turns.contains(t) <==> (turns[0] == t || turns.drop_first().contains(t))) by {
            if turns.contains(t) {
                let j = choose|j: int| 0 <= j < turns.len() && turns[j] == t;
                if j > 0 {
                    assert(turns.drop_first()[j - 1] == t);
                    assert(turns.drop_first().contains(t));
                }
            }
            if turns.drop_first().contains(t) {
                let j = choose|j: int|
                    0 <= j < turns.drop_first().len() && turns.drop_first()[j] == t;
                assert(turns[j + 1] == t);
                assert(turns.contains(t));
            }
            if turns[0] == t {
                assert(turns.contains(t));
            }
        }
        if is_expired_at(turns[0].date, now, expiration) {
            assert(fresh_turns(turns, now, expiration) == rest);
        } else {
            assert(fresh_turns(turns, now, expiration) == seq![turns[0]] + rest);
            assert((seq![turns[0]] + rest).contains(t) <==> (turns[0] == t || rest.contains(
                t,
            ))) by {
                if (seq![turns[0]] + rest).contains(t) {
                    let k = choose|k: int|
                        0 <= k < (seq![turns[0]] + rest).len() && (seq![turns[0]] + rest)[k] == t;
                    if k == 0 {
                        assert(turns[0] == t);
                    } else {
                        assert(rest[k - 1] == t);
                        assert(rest.contains(t));
                    }
                }
                if turns[0] == t {
                    assert((seq![turns[0]] + rest)[0] == t);
                    assert((seq![turns[0]] + rest).contains(t));
                }
                if rest.contains(t) {
                    let k = choose|k: int| 0 <= k < rest.len() && rest[k] == t;
                    assert((seq![turns[0]] + rest)[k + 1] == t);
                    assert((seq![turns[0]] + rest).contains(t));
                }
            }
        }
    }
}

/// The boundary of the expiry rule: a turn whose age is exactly the
/// threshold is not expired — the rule is strictly greater-than.
pub proof fn lemma_expiry_boundary(date: i64, now: i64, expiration: u32)
    requires
        now - date == expiration,
    ensures
        !is_expired_at(date, now, expiration),
{
}

} // verus!

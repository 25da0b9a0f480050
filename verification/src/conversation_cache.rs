//! Conversation state per notebook: the conversation id to reuse, and a
//! sliding window of the last question-answer pairs (two turns, four
//! messages), which keeps question payloads under Google's size limit.

use vstd::prelude::*;
use crate::text::{owned, str_eq};

verus! {

/// Turns kept in a history; each turn is a question and an answer message.
pub const MAX_HISTORY_TURNS: usize = 2;

/// A question and the answer it got.
#[derive(Debug, Clone)]
pub struct ConversationMessage {
    pub question: String,
    pub answer: String,
}

/// The messages of one conversation, oldest first.
#[derive(Debug, Clone)]
pub struct ConversationHistory {
    pub messages: Vec<ConversationMessage>,
}

impl Default for ConversationHistory {
    fn default() -> (r: Self)
        ensures
            r.messages@.len() == 0,
    {
        ConversationHistory { messages: Vec::new() }
    }
}

/// A message as plain values: question, answer.
pub type MsgModel = (Seq<char>, Seq<char>);

/// A conversation as plain values: its id and its messages.
pub type ConvModel = (Seq<char>, Seq<MsgModel>);

pub open spec fn msg_models(v: Seq<ConversationMessage>) -> Seq<MsgModel> {
    v.map_values(|m: ConversationMessage| (m.question@, m.answer@))
}

/// The window of a history: its last `2 * MAX_HISTORY_TURNS` messages.
pub open spec fn window(s: Seq<MsgModel>) -> Seq<MsgModel> {
    if s.len() > 4 {
        s.subrange(s.len() - 4, s.len() as int)
    } else {
        s
    }
}

/// A cache's conversations by notebook id, as plain values.
pub type CacheModel = Map<Seq<char>, ConvModel>;

/// The conversation id `get_or_create` answers: the kept one, or the new one.
pub open spec fn conversation_of(m: CacheModel, notebook_id: Seq<char>, conversation_id: Seq<char>) -> Seq<char> {
    if m.contains_key(notebook_id) {
        m[notebook_id].0
    } else {
        conversation_id
    }
}

/// The cache after `get_or_create`: unchanged when the notebook has a
/// conversation, else with the new one and an empty history.
pub open spec fn created(m: CacheModel, notebook_id: Seq<char>, conversation_id: Seq<char>) -> CacheModel {
    if m.contains_key(notebook_id) {
        m
    } else {
        m.insert(notebook_id, (conversation_id, Seq::empty()))
    }
}

/// The cache after `add_message`: the pair appended to the notebook's
/// history, of which the window is kept; unchanged without a conversation.
pub open spec fn with_message(m: CacheModel, notebook_id: Seq<char>, question: Seq<char>, answer: Seq<char>) -> CacheModel {
    if m.contains_key(notebook_id) {
        m.insert(notebook_id, (m[notebook_id].0, window(m[notebook_id].1.push((question, answer)))))
    } else {
        m
    }
}

/// The map from notebook ids to conversations that entries stand for.
pub open spec fn map_of(s: Seq<(Seq<char>, ConvModel)>) -> Map<Seq<char>, ConvModel>
    decreases s.len(),
{
    if s.len() == 0 {
        Map::empty()
    } else {
        map_of(s.drop_last()).insert(s.last().0, s.last().1)
    }
}

/// No notebook id occurs twice.
pub open spec fn keys_unique(s: Seq<(Seq<char>, ConvModel)>) -> bool {
    forall|i: int, j: int| 0 <= i < s.len() && 0 <= j < s.len() && i != j ==> #[trigger] s[i].0 != #[trigger] s[j].0
}

proof fn lemma_map_of_keys(s: Seq<(Seq<char>, ConvModel)>, k: Seq<char>)
    ensures
        map_of(s).contains_key(k) <==> exists|i: int| 0 <= i < s.len() && #[trigger] s[i].0 == k,
    decreases s.len(),
{
    if s.len() > 0 {
        lemma_map_of_keys(s.drop_last(), k);
        if map_of(s.drop_last()).contains_key(k) {
            let i = choose|i: int| 0 <= i < s.drop_last().len() && #[trigger] s.drop_last()[i].0 == k;
            assert(s[i].0 == k);
        }
        if exists|i: int| 0 <= i < s.len() && #[trigger] s[i].0 == k {
            let i = choose|i: int| 0 <= i < s.len() && #[trigger] s[i].0 == k;
            if i < s.len() - 1 {
                assert(s.drop_last()[i].0 == k);
            }
        }
    }
}

proof fn lemma_map_of_at(s: Seq<(Seq<char>, ConvModel)>, i: int)
    requires
        keys_unique(s),
        0 <= i < s.len(),
    ensures
        map_of(s).contains_key(s[i].0),
        map_of(s)[s[i].0] == s[i].1,
    decreases s.len(),
{
    if i < s.len() - 1 {
        assert(keys_unique(s.drop_last()));
        lemma_map_of_at(s.drop_last(), i);
        assert(s.drop_last()[i] == s[i]);
        assert(s.last().0 != s[i].0);
    }
}

proof fn lemma_map_of_update(s: Seq<(Seq<char>, ConvModel)>, i: int, v: ConvModel)
    requires
        keys_unique(s),
        0 <= i < s.len(),
    ensures
        map_of(s.update(i, (s[i].0, v))) == map_of(s).insert(s[i].0, v),
        keys_unique(s.update(i, (s[i].0, v))),
    decreases s.len(),
{
    let t = s.update(i, (s[i].0, v));
    if i == s.len() - 1 {
        assert(t.drop_last() =~= s.drop_last());
        assert(map_of(s).insert(s[i].0, v) =~= map_of(s.drop_last()).insert(s[i].0, v));
    } else {
        assert(keys_unique(s.drop_last()));
        lemma_map_of_update(s.drop_last(), i, v);
        assert(t.drop_last() =~= s.drop_last().update(i, (s[i].0, v)));
        assert(s.last().0 != s[i].0);
        assert(map_of(t) =~= map_of(s).insert(s[i].0, v));
    }
}

proof fn lemma_map_of_remove(s: Seq<(Seq<char>, ConvModel)>, i: int)
    requires
        keys_unique(s),
        0 <= i < s.len(),
    ensures
        map_of(s.remove(i)) == map_of(s).remove(s[i].0),
        keys_unique(s.remove(i)),
    decreases s.len(),
{
    let t = s.remove(i);
    let k = s[i].0;
    if i == s.len() - 1 {
        assert(t =~= s.drop_last());
        lemma_map_of_keys(s.drop_last(), k);
        assert(map_of(s.drop_last()).remove(k) =~= map_of(s.drop_last()));
        assert(map_of(s).remove(k) =~= map_of(s.drop_last()).remove(k));
    } else {
        assert(keys_unique(s.drop_last()));
        lemma_map_of_remove(s.drop_last(), i);
        assert(t.drop_last() =~= s.drop_last().remove(i));
        assert(t.last() == s.last());
        assert(s.last().0 != k);
        assert(map_of(t) =~= map_of(s).remove(k));
    }
}

/// Conversations by notebook id.
pub struct ConversationCache {
    conversations: Vec<(String, String, ConversationHistory)>,
}

impl ConversationCache {
    /// The entries as plain values.
    pub closed spec fn entries(&self) -> Seq<(Seq<char>, ConvModel)> {
        self.conversations@.map_values(
            |e: (String, String, ConversationHistory)| (e.0@, (e.1@, msg_models(e.2.messages@))),
        )
    }

    /// Well-formed: each notebook has at most one conversation.
    pub closed spec fn wf(&self) -> bool {
        keys_unique(self.entries())
    }

    pub fn new() -> (r: ConversationCache)
        ensures
            r.wf(),
            r@ == Map::<Seq<char>, ConvModel>::empty(),
    {
        let r = ConversationCache { conversations: Vec::new() };
        assert(r.entries() =~= Seq::<(Seq<char>, ConvModel)>::empty());
        r
    }

    /// Index of the entry of `notebook_id`.
    fn find(&self, notebook_id: &str) -> (r: Option<usize>)
        requires
            self.wf(),
        ensures
            match r {
                Some(i) => i < self.entries().len() && self.entries()[i as int].0 == notebook_id@,
                None => !self@.contains_key(notebook_id@),
            },
    {
        let mut i: usize = 0;
        while i < self.conversations.len()
            invariant
                i <= self.conversations@.len(),
                forall|k: int| 0 <= k < i ==> #[trigger] self.entries()[k].0 != notebook_id@,
            decreases self.conversations@.len() - i,
        {
            if str_eq(self.conversations[i].0.as_str(), notebook_id) {
                return Some(i);
            }
            i = i + 1;
        }
        proof {
            lemma_map_of_keys(self.entries(), notebook_id@);
        }
        None
    }

    /// The conversation id of a notebook: the one already kept, or
    /// `conversation_id`, which is then kept with an empty history.
    pub fn get_or_create(&mut self, notebook_id: &str, conversation_id: &str) -> (r: String)
        requires
            old(self).wf(),
        ensures
            final(self).wf(),
            r@ == conversation_of(old(self)@, notebook_id@, conversation_id@),
            final(self)@ == created(old(self)@, notebook_id@, conversation_id@),
    {
        match self.find(notebook_id) {
            Some(i) => {
                proof {
                    lemma_map_of_at(self.entries(), i as int);
                }
                self.conversations[i].1.clone()
            },
            None => {
                let ghost before = self.entries();
                let h = ConversationHistory::default();
                assert(msg_models(h.messages@) =~= Seq::<MsgModel>::empty());
                self.conversations.push((owned(notebook_id), owned(conversation_id), h));
                proof {
                    let e = (notebook_id@, (conversation_id@, Seq::<MsgModel>::empty()));
                    assert(self.entries() =~= before.push(e));
                    lemma_map_of_keys(before, notebook_id@);
                    assert(self.entries().drop_last() =~= before);
                    assert forall|a: int, b: int|
                        0 <= a < self.entries().len() && 0 <= b < self.entries().len() && a != b implies #[trigger] self.entries()[a].0
                        != #[trigger] self.entries()[b].0 by {
                        if a < before.len() && b < before.len() {
                            assert(before[a].0 != before[b].0);
                        } else if a < before.len() {
                            assert(before[a].0 != notebook_id@);
                        } else {
                            assert(before[b].0 != notebook_id@);
                        }
                    }
                }
                owned(conversation_id)
            },
        }
    }

    /// Appends a question and its answer to the notebook's history, keeping
    /// only the last `MAX_HISTORY_TURNS` turns; nothing changes for a
    /// notebook without a conversation.
    pub fn add_message(&mut self, notebook_id: &str, question: String, answer: String)
        requires
            old(self).wf(),
        ensures
            final(self).wf(),
            final(self)@ == with_message(old(self)@, notebook_id@, question@, answer@),
    {
        match self.find(notebook_id) {
            Some(i) => {
                let ghost before = self.entries();
                proof {
                    lemma_map_of_at(before, i as int);
                }
                let (k, c, h) = self.conversations.remove(i);
                let mut messages = h.messages;
                let ghost pushed = msg_models(messages@).push((question@, answer@));
                messages.push(ConversationMessage { question, answer });
                assert(msg_models(messages@) =~= pushed);
                let max_messages = MAX_HISTORY_TURNS * 2;
                if messages.len() > max_messages {
                    let excess = messages.len() - max_messages;
                    let mut kept: Vec<ConversationMessage> = Vec::new();
                    let mut j: usize = excess;
                    assert(msg_models(kept@) =~= msg_models(messages@).subrange(excess as int, excess as int));
                    while j < messages.len()
                        invariant
                            excess <= j <= messages@.len(),
                            msg_models(kept@) == msg_models(messages@).subrange(excess as int, j as int),
                        decreases messages@.len() - j,
                    {
                        let m = ConversationMessage {
                            question: messages[j].question.clone(),
                            answer: messages[j].answer.clone(),
                        };
                        let ghost prev = kept@;
                        kept.push(m);
                        assert(msg_models(kept@) =~= msg_models(prev).push((m.question@, m.answer@)));
                        j = j + 1;
                        assert(msg_models(kept@) =~= msg_models(messages@).subrange(excess as int, j as int));
                    }
                    assert(msg_models(kept@) =~= window(pushed));
                    messages = kept;
                }
                assert(msg_models(messages@) =~= window(pushed));
                self.conversations.insert(i, (k, c, ConversationHistory { messages }));
                proof {
                    assert(self.entries() =~= before.update(i as int, (before[i as int].0, (before[i as int].1.0, window(pushed)))));
                    lemma_map_of_update(before, i as int, (before[i as int].1.0, window(pushed)));
                }
            },
            None => {},
        }
    }

    /// The history of a notebook's conversation.
    pub fn get_history(&self, notebook_id: &str) -> (r: Option<Vec<ConversationMessage>>)
        requires
            self.wf(),
        ensures
            match r {
                Some(v) => self@.contains_key(notebook_id@) && msg_models(v@) == self@[notebook_id@].1,
                None => !self@.contains_key(notebook_id@),
            },
    {
        match self.find(notebook_id) {
            Some(i) => {
                proof {
                    lemma_map_of_at(self.entries(), i as int);
                }
                let src = &self.conversations[i].2.messages;
                let mut out: Vec<ConversationMessage> = Vec::new();
                let mut j: usize = 0;
                while j < src.len()
                    invariant
                        j <= src@.len(),
                        msg_models(out@) == msg_models(src@).take(j as int),
                    decreases src@.len() - j,
                {
                    let m = ConversationMessage { question: src[j].question.clone(), answer: src[j].answer.clone() };
                    let ghost before = out@;
                    out.push(m);
                    assert(msg_models(out@) =~= msg_models(before).push((m.question@, m.answer@)));
                    assert(msg_models(out@) =~= msg_models(src@).take(j + 1));
                    j = j + 1;
                }
                assert(msg_models(src@).take(j as int) =~= msg_models(src@));
                Some(out)
            },
            None => None,
        }
    }

    /// The conversation id of a notebook.
    pub fn get_conversation_id(&self, notebook_id: &str) -> (r: Option<String>)
        requires
            self.wf(),
        ensures
            match r {
                Some(c) => self@.contains_key(notebook_id@) && c@ == self@[notebook_id@].0,
                None => !self@.contains_key(notebook_id@),
            },
    {
        match self.find(notebook_id) {
            Some(i) => {
                proof {
                    lemma_map_of_at(self.entries(), i as int);
                }
                Some(self.conversations[i].1.clone())
            },
            None => None,
        }
    }

    /// Forgets the notebook's conversation, so that the next question starts
    /// a new one.
    pub fn reset(&mut self, notebook_id: &str)
        requires
            old(self).wf(),
        ensures
            final(self).wf(),
            final(self)@ == old(self)@.remove(notebook_id@),
    {
        match self.find(notebook_id) {
            Some(i) => {
                let ghost before = self.entries();
                self.conversations.remove(i);
                proof {
                    assert(self.entries() =~= before.remove(i as int));
                    lemma_map_of_remove(before, i as int);
                }
            },
            None => {
                assert(self@.remove(notebook_id@) =~= self@);
            },
        }
    }
}

impl View for ConversationCache {
    type V = Map<Seq<char>, ConvModel>;

    closed spec fn view(&self) -> Map<Seq<char>, ConvModel> {
        map_of(self.entries())
    }
}

impl Default for ConversationCache {
    fn default() -> (r: Self)
        ensures
            r.wf(),
            r@ == Map::<Seq<char>, ConvModel>::empty(),
    {
        ConversationCache::new()
    }
}

/// Once a notebook has a conversation, asking for one again gives the same
/// id, whatever new id is offered, and leaves the cache as it is.
pub proof fn law_conversation_reused(m: CacheModel, notebook_id: Seq<char>, first: Seq<char>, second: Seq<char>)
    ensures
        conversation_of(created(m, notebook_id, first), notebook_id, second) == conversation_of(
            m,
            notebook_id,
            first,
        ),
        created(created(m, notebook_id, first), notebook_id, second) == created(m, notebook_id, first),
{
}

/// A history never holds more than `2 * MAX_HISTORY_TURNS` messages, and
/// its last message is the pair just added.
pub proof fn law_history_window(m: CacheModel, notebook_id: Seq<char>, question: Seq<char>, answer: Seq<char>)
    requires
        m.contains_key(notebook_id),
    ensures
        with_message(m, notebook_id, question, answer)[notebook_id].1.len() <= 2 * MAX_HISTORY_TURNS,
        with_message(m, notebook_id, question, answer)[notebook_id].1.last() == (question, answer),
        with_message(m, notebook_id, question, answer)[notebook_id].0 == m[notebook_id].0,
{
}

/// Keeping the window of the whole history or of the window already kept
/// comes to the same: the window holds the latest messages in order.
pub proof fn law_window_slides(s: Seq<MsgModel>, x: MsgModel)
    ensures
        window(window(s).push(x)) == window(s.push(x)),
{
    if s.len() > 4 {
        assert(window(s).push(x).subrange(1, 5) =~= s.push(x).subrange(s.len() - 3, s.len() + 1 as int));
    } else if s.len() == 4 {
        assert(window(s).push(x) =~= s.push(x));
    }
}

/// Adding a message to one notebook leaves every other notebook as it was.
pub proof fn law_other_notebooks_kept(
    m: CacheModel,
    notebook_id: Seq<char>,
    other: Seq<char>,
    question: Seq<char>,
    answer: Seq<char>,
)
    requires
        other != notebook_id,
    ensures
        with_message(m, notebook_id, question, answer).contains_key(other) == m.contains_key(other),
        m.contains_key(other) ==> with_message(m, notebook_id, question, answer)[other] == m[other],
{
}

/// After a reset the notebook has no conversation: the next request starts
/// one with the id it offers and an empty history.
pub proof fn law_reset_starts_over(m: CacheModel, notebook_id: Seq<char>, conversation_id: Seq<char>)
    ensures
        conversation_of(m.remove(notebook_id), notebook_id, conversation_id) == conversation_id,
        created(m.remove(notebook_id), notebook_id, conversation_id)[notebook_id] == (
            conversation_id,
            Seq::<MsgModel>::empty(),
        ),
{
}

} // verus!

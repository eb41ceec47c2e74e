//! The navigation state machine: the session state (path, children,
//! selection, message log) and the transitions that browsing events and
//! gateway answers drive it through.

use vstd::prelude::*;

verus! {

use crate::events::Key;
use vstd::string::StrSliceExecFns;
use vstd::string::StringExecFns;
use vstd::arithmetic::div_mod::lemma_add_mod_noop;
use vstd::arithmetic::div_mod::lemma_mod_bound;
use vstd::arithmetic::div_mod::lemma_mod_self_0;
use vstd::arithmetic::div_mod::lemma_small_mod;

/// A line of the message log: either the detail of a failed gateway call,
/// or a value read from a node, with the path it was read at.
#[derive(Debug)]
pub enum Message {
    Error(String),
    Value(String, String),
}

/// The text of a message, with each string as its character sequence.
pub enum MessageView {
    Error(Seq<char>),
    Value(Seq<char>, Seq<char>),
}

impl View for Message {
    type V = MessageView;

    open spec fn view(&self) -> MessageView {
        match self {
            Message::Error(t) => MessageView::Error(t@),
            Message::Value(p, t) => MessageView::Value(p@, t@),
        }
    }
}

/// The texts of a whole log, oldest first.
pub open spec fn log_view(log: Seq<Message>) -> Seq<MessageView> {
    log.map_values(|m: Message| m@)
}

/// The session state as the specifications see it.
#[verifier::ext_equal]
pub struct SessionView {
    /// The segments of the current location, root first.
    pub path: Seq<String>,
    /// The children listed for the current location by the last successful
    /// navigation; stale after a failed one.
    pub children: Seq<String>,
    /// The selected index into `children`, if any.
    pub selected: Option<usize>,
    /// The texts of the message log, oldest first.
    pub log: Seq<MessageView>,
}

impl SessionView {
    /// The selection invariant: a present selection is in bounds, and an
    /// empty children listing forces the selection absent.
    pub open spec fn wf(&self) -> bool {
        &&& (self.selected matches Some(i) ==> i < self.children.len())
        &&& (self.children.len() == 0 ==> self.selected is None)
    }
}

/// The session state: the aggregate the state machine owns.  The renderer
/// only ever reads it.
pub struct Session {
    /// The segments of the current location, root first; the root itself is
    /// the empty path.
    pub path: Vec<String>,
    /// The children of the current location, as last listed successfully.
    pub children: Vec<String>,
    /// The selected index into `children`, if any.
    pub selected: Option<usize>,
    /// The message log, oldest first; it only ever grows.
    pub messages: Vec<Message>,
}

impl View for Session {
    type V = SessionView;

    open spec fn view(&self) -> SessionView {
        SessionView {
            path: self.path@,
            children: self.children@,
            selected: self.selected,
            log: log_view(self.messages@),
        }
    }
}

/// Where a Down press moves the selection: one step toward the end,
/// wrapping past the last child to the first; onto the first child when
/// nothing was selected; nowhere when there are no children.
pub open spec fn next_down(sel: Option<usize>, len: nat) -> Option<usize> {
    if len == 0 {
        None
    } else {
        match sel {
            None => Some(0usize),
            Some(i) => if i + 1 < len {
                Some((i + 1) as usize)
            } else {
                Some(0usize)
            },
        }
    }
}

/// Where an Up press moves the selection: one step toward the start,
/// wrapping past the first child to the last; onto the last child when
/// nothing was selected; nowhere when there are no children.
pub open spec fn next_up(sel: Option<usize>, len: nat) -> Option<usize> {
    if len == 0 {
        None
    } else {
        match sel {
            None => Some((len - 1) as usize),
            Some(i) => if i == 0 {
                Some((len - 1) as usize)
            } else {
                Some((i - 1) as usize)
            },
        }
    }
}

/// The path after ascending: the last segment popped, or the root left as
/// it is.
pub open spec fn left_path(path: Seq<String>) -> Seq<String> {
    if path.len() > 0 {
        path.drop_last()
    } else {
        path
    }
}

/// The path after descending into the selected child.
pub open spec fn right_path(path: Seq<String>, children: Seq<String>, sel: Option<usize>) -> Seq<String> {
    match sel {
        Some(i) => path.push(children[i as int]),
        None => path,
    }
}

/// The `//` collapse applied to a freshly built target text: a double
/// separator at the very front — the root with a child under it — loses
/// one of its two slashes.
pub open spec fn collapse_double_root(s: Seq<char>) -> Seq<char> {
    if s.len() >= 2 && s[0] == '/' && s[1] == '/' {
        s.drop_first()
    } else {
        s
    }
}

/// The location Enter reads: the selected child under the current path
/// when a selection is present, the current path itself when none is.
pub open spec fn enter_target(path: Seq<String>, children: Seq<String>, sel: Option<usize>) -> Seq<char> {
    match sel {
        Some(i) => collapse_double_root(path_text(path) + seq!['/'] + children[i as int]@),
        None => path_text(path),
    }
}

/// The detail logged when a listing comes back empty: the store reports a
/// node with no children and a missing node as one and the same failure.
pub open spec fn no_node_text() -> Seq<char> {
    "NoNode"@
}

/// The session state after one key of the transition table, the exit key
/// aside: Down and Up move the selection, Left pops the path, Right pushes
/// the selected child onto it, every other key moves nothing.
pub open spec fn step_key(s: SessionView, key: Key) -> SessionView {
    if key == Key::Down {
        SessionView { selected: next_down(s.selected, s.children.len()), ..s }
    } else if key == Key::Up {
        SessionView { selected: next_up(s.selected, s.children.len()), ..s }
    } else if key == Key::Left {
        SessionView { path: left_path(s.path), ..s }
    } else if key == Key::Right {
        SessionView { path: right_path(s.path, s.children, s.selected), ..s }
    } else {
        s
    }
}

/// The session state after a children listing comes back: a non-empty
/// listing replaces the children and selects the first of them; an empty
/// one counts as the missing-node failure; a failure of either kind only
/// appends its detail to the log, children and selection staying stale.
pub open spec fn step_listing(s: SessionView, result: Result<Seq<String>, Seq<char>>) -> SessionView {
    match result {
        Ok(nodes) => if nodes.len() > 0 {
            SessionView { children: nodes, selected: Some(0usize), ..s }
        } else {
            SessionView { log: s.log.push(MessageView::Error(no_node_text())), ..s }
        },
        Err(detail) => SessionView { log: s.log.push(MessageView::Error(detail)), ..s },
    }
}

/// The session state after a value read comes back: the value, or the
/// failure's detail, is appended to the log; nothing else moves.
pub open spec fn step_read(s: SessionView, target: Seq<char>, result: Result<Seq<char>, Seq<char>>) -> SessionView {
    match result {
        Ok(data) => SessionView { log: s.log.push(MessageView::Value(target, data)), ..s },
        Err(detail) => SessionView { log: s.log.push(MessageView::Error(detail)), ..s },
    }
}

/// A listing answer with its strings as character sequences.
pub open spec fn listing_view(result: Result<Vec<String>, String>) -> Result<Seq<String>, Seq<char>> {
    match result {
        Ok(nodes) => Ok(nodes@),
        Err(detail) => Err(detail@),
    }
}

/// A read answer with its strings as character sequences.
pub open spec fn read_view(result: Result<String, String>) -> Result<Seq<char>, Seq<char>> {
    match result {
        Ok(data) => Ok(data@),
        Err(detail) => Err(detail@),
    }
}

/// The segments joined with `/`, without a leading separator.
pub open spec fn joined_text(path: Seq<String>) -> Seq<char>
    decreases path.len(),
{
    if path.len() == 0 {
        Seq::empty()
    } else if path.len() == 1 {
        path[0]@
    } else {
        joined_text(path.drop_last()) + seq!['/'] + path.last()@
    }
}

/// The text of a location: `/` followed by the segments joined with `/`;
/// the root is `/` alone.
pub open spec fn path_text(path: Seq<String>) -> Seq<char> {
    seq!['/'] + joined_text(path)
}

/// What the consumer loop must do after a key has been applied.
#[derive(Debug)]
pub enum Action {
    /// Stop the loop; the browser is done.
    Exit,
    /// List the children of the — already moved — current path against the
    /// store, and hand the answer to [`Session::apply_listing`].
    ListChildren,
    /// Read the value at the given location against the store, and hand
    /// the answer to [`Session::apply_read`].
    ReadValue(String),
    /// Nothing: the key asked for no work.
    Ignore,
}

impl Session {
    /// A fresh session at the root: nothing listed, nothing selected,
    /// nothing logged.  The caller lists the root's children right away
    /// and applies the answer.
    pub fn new() -> (s: Session)
        ensures
            s@.path == Seq::<String>::empty(),
            s@.children == Seq::<String>::empty(),
            s@.selected is None,
            s@.log == Seq::<MessageView>::empty(),
            s@.wf(),
    {
        let s = Session {
            path: Vec::new(),
            children: Vec::new(),
            selected: None,
            messages: Vec::new(),
        };
        proof {
            assert(log_view(s.messages@) =~= Seq::<MessageView>::empty());
        }
        s
    }

    /// Move the selection one child down, wrapping, as [`next_down`] says;
    /// nothing else moves.
    pub fn key_down(&mut self)
        requires
            old(self)@.wf(),
        ensures
            final(self)@ == (SessionView { selected: next_down(old(self)@.selected, old(self)@.children.len()), ..old(self)@ }),
            final(self)@.wf(),
    {
        let len = self.children.len();
        self.selected = if len == 0 {
            None
        } else {
            match self.selected {
                None => Some(0),
                Some(i) => if i + 1 < len {
                    Some(i + 1)
                } else {
                    Some(0)
                },
            }
        };
    }

    /// Move the selection one child up, wrapping, as [`next_up`] says;
    /// nothing else moves.
    pub fn key_up(&mut self)
        requires
            old(self)@.wf(),
        ensures
            final(self)@ == (SessionView { selected: next_up(old(self)@.selected, old(self)@.children.len()), ..old(self)@ }),
            final(self)@.wf(),
    {
        let len = self.children.len();
        self.selected = if len == 0 {
            None
        } else {
            match self.selected {
                None => Some(len - 1),
                Some(i) => if i == 0 {
                    Some(len - 1)
                } else {
                    Some(i - 1)
                },
            }
        };
    }

    /// The text of the current location, for the gateway and for the
    /// renderer's title.
    pub fn path_string(&self) -> (s: String)
        ensures
            s@ == path_text(self@.path),
    {
        join_under_root(&self.path)
    }

    /// The text of the location Enter reads, as [`enter_target`] says.
    pub fn enter_target_string(&self) -> (t: String)
        requires
            self@.wf(),
        ensures
            t@ == enter_target(self@.path, self@.children, self@.selected),
    {
        match self.selected {
            None => self.path_string(),
            Some(i) => {
                let mut t = self.path_string();
                t.append("/");
                t.append(self.children[i].as_str());
                proof {
                    reveal_strlit("/");
                    assert(t@ =~= path_text(self@.path) + seq!['/'] + self@.children[i as int]@);
                }
                let n = t.as_str().unicode_len();
                if n >= 2 {
                    let c0 = t.as_str().get_char(0);
                    let c1 = t.as_str().get_char(1);
                    if c0 == '/' && c1 == '/' {
                        let shorn = t.as_str().substring_char(1, n).to_owned();
                        proof {
                            assert(shorn@ =~= t@.drop_first());
                        }
                        return shorn;
                    }
                }
                t
            },
        }
    }

    /// Apply one key of the transition table.  The exit key — whatever the
    /// event system was configured with — always asks the loop to stop and
    /// moves nothing; every other key transforms the state as [`step_key`]
    /// says, and the returned action tells the caller which gateway call,
    /// if any, the transition now awaits.
    pub fn on_key(&mut self, key: Key, exit_key: Key) -> (a: Action)
        requires
            old(self)@.wf(),
        ensures
            (a is Exit) == (key == exit_key),
            key == exit_key ==> final(self)@ == old(self)@,
            key != exit_key ==> final(self)@ == step_key(old(self)@, key),
            key != exit_key && (key == Key::Left || (key == Key::Right && old(self)@.selected is Some))
                ==> a is ListChildren,
            key != exit_key && key == Key::Char('\n')
                ==> (a matches Action::ReadValue(t)
                    && t@ == enter_target(old(self)@.path, old(self)@.children, old(self)@.selected)),
            key != exit_key && key != Key::Char('\n')
                && !(key == Key::Left || (key == Key::Right && old(self)@.selected is Some))
                ==> a is Ignore,
            final(self)@.wf(),
    {
        if key == exit_key {
            return Action::Exit;
        }
        match key {
            Key::Down => {
                self.key_down();
                Action::Ignore
            },
            Key::Up => {
                self.key_up();
                Action::Ignore
            },
            Key::Left => {
                let _popped = self.path.pop();
                proof {
                    if old(self)@.path.len() > 0 {
                        assert(self.path@ =~= left_path(old(self)@.path));
                    }
                }
                Action::ListChildren
            },
            Key::Right => {
                match self.selected {
                    Some(i) => {
                        let child = self.children[i].clone();
                        self.path.push(child);
                        Action::ListChildren
                    },
                    None => Action::Ignore,
                }
            },
            Key::Char(c) => {
                if c == '\n' {
                    let t = self.enter_target_string();
                    Action::ReadValue(t)
                } else {
                    Action::Ignore
                }
            },
            Key::Other => Action::Ignore,
        }
    }

    /// Apply the store's answer to the listing that a Left or Right
    /// transition asked for, as [`step_listing`] says: replace the children
    /// and select the first on a non-empty listing, log the failure and
    /// keep the stale children — under the already moved path — otherwise.
    pub fn apply_listing(&mut self, result: Result<Vec<String>, String>)
        requires
            old(self)@.wf(),
        ensures
            final(self)@ == step_listing(old(self)@, listing_view(result)),
            final(self)@.wf(),
    {
        let ghost pre = self@;
        let ghost premsgs = self.messages@;
        match result {
            Ok(nodes) => {
                if nodes.len() > 0 {
                    self.children = nodes;
                    self.selected = Some(0);
                } else {
                    let detail = "NoNode".to_owned();
                    let ghost m = Message::Error(detail);
                    self.messages.push(Message::Error(detail));
                    proof {
                        lemma_log_view_push(premsgs, m);
                    }
                }
            },
            Err(detail) => {
                let ghost m = Message::Error(detail);
                self.messages.push(Message::Error(detail));
                proof {
                    lemma_log_view_push(premsgs, m);
                }
            },
        }
        proof {
            assert(self@ =~= step_listing(pre, listing_view(result)));
        }
    }

    /// Apply the store's answer to the read that an Enter transition asked
    /// for at `target`, as [`step_read`] says: log the value read there,
    /// or the failure's detail.
    pub fn apply_read(&mut self, target: String, result: Result<String, String>)
        requires
            old(self)@.wf(),
        ensures
            final(self)@ == step_read(old(self)@, target@, read_view(result)),
            final(self)@.wf(),
    {
        let ghost pre = self@;
        let ghost premsgs = self.messages@;
        match result {
            Ok(data) => {
                let ghost m = Message::Value(target, data);
                self.messages.push(Message::Value(target, data));
                proof {
                    lemma_log_view_push(premsgs, m);
                }
            },
            Err(detail) => {
                let ghost m = Message::Error(detail);
                self.messages.push(Message::Error(detail));
                proof {
                    lemma_log_view_push(premsgs, m);
                }
            },
        }
        proof {
            assert(self@ =~= step_read(pre, target@, read_view(result)));
        }
    }
}

/// The texts of a log grow by the text of what is pushed.
proof fn lemma_log_view_push(log: Seq<Message>, m: Message)
    ensures
        log_view(log.push(m)) == log_view(log).push(m@),
{
    assert(log_view(log.push(m)) =~= log_view(log).push(m@));
}

/// The selection after a number of Down presses.
pub open spec fn iter_down(sel: Option<usize>, len: nat, presses: nat) -> Option<usize>
    decreases presses,
{
    if presses == 0 {
        sel
    } else {
        next_down(iter_down(sel, len, (presses - 1) as nat), len)
    }
}

/// The selection after a number of Up presses.
pub open spec fn iter_up(sel: Option<usize>, len: nat, presses: nat) -> Option<usize>
    decreases presses,
{
    if presses == 0 {
        sel
    } else {
        next_up(iter_up(sel, len, (presses - 1) as nat), len)
    }
}

/// Law: from a present selection, any sequence of Down presses cycles
/// through `0..len` and wraps past the end to `0`: after `presses` of
/// them the selection sits at `(start + presses) % len`.
pub proof fn lemma_down_cycles(start: usize, len: usize, presses: nat)
    requires
        start < len,
    ensures
        iter_down(Some(start), len as nat, presses)
            == Some((((start + presses) % (len as int)) as usize)),
    decreases presses,
{
    let n = len as int;
    if presses == 0 {
        lemma_small_mod(start as nat, len as nat);
    } else {
        lemma_down_cycles(start, len, (presses - 1) as nat);
        let x = start + presses - 1;
        let r = x % n;
        lemma_mod_bound(x, n);
        if n == 1 {
            lemma_mod_bound(x + 1, n);
        } else {
            lemma_small_mod(1nat, len as nat);
            lemma_add_mod_noop(x, 1, n);
            if r + 1 < n {
                lemma_small_mod((r + 1) as nat, len as nat);
            } else {
                lemma_mod_self_0(n);
            }
        }
    }
}

/// Peeling one factor off a product.
proof fn lemma_mul_unroll(a: int, b: int)
    ensures
        a * b == (a - 1) * b + b,
{
    assert(a * b == (a - 1) * b + b) by (nonlinear_arith);
}

/// Law: from a present selection, any sequence of Up presses cycles
/// toward the start and wraps past `0` to `len - 1`: each press moves the
/// selection back by one, modulo `len`, so after `presses` of them it
/// sits at `(start + presses * (len - 1)) % len`.
pub proof fn lemma_up_cycles(start: usize, len: usize, presses: nat)
    requires
        start < len,
    ensures
        iter_up(Some(start), len as nat, presses)
            == Some((((start + presses * (len - 1)) % (len as int)) as usize)),
    decreases presses,
{
    let n = len as int;
    if presses == 0 {
        assert(presses * (len - 1) == 0) by (nonlinear_arith)
            requires presses == 0;
        lemma_small_mod(start as nat, len as nat);
    } else {
        lemma_up_cycles(start, len, (presses - 1) as nat);
        let x = start + (presses - 1) * (n - 1);
        lemma_mul_unroll(presses as int, n - 1);
        assert(start + presses * (len - 1) == x + (n - 1));
        let r = x % n;
        lemma_mod_bound(x, n);
        lemma_add_mod_noop(x, n - 1, n);
        lemma_small_mod((n - 1) as nat, len as nat);
        if r == 0 {
            assert((x + (n - 1)) % n == n - 1);
        } else {
            lemma_add_mod_noop(r - 1, n, n);
            lemma_mod_self_0(n);
            lemma_small_mod((r - 1) as nat, len as nat);
            assert((x + (n - 1)) % n == r - 1);
        }
    }
}

/// Law: with children present, a first Down press from an absent
/// selection lands on the first child and a first Up press on the last;
/// from there the cycling laws above take over.
pub proof fn lemma_absent_selection_first_press(len: usize)
    requires
        0 < len,
    ensures
        next_down(None, len as nat) == Some(0usize),
        next_up(None, len as nat) == Some((len - 1) as usize),
{
}

/// Law: with no children there is nothing to select, and any number of
/// Down or Up presses leaves the selection absent.
pub proof fn lemma_empty_children_selection_stays_absent(presses: nat)
    ensures
        iter_down(None, 0, presses) is None,
        iter_up(None, 0, presses) is None,
    decreases presses,
{
    if presses > 0 {
        lemma_empty_children_selection_stays_absent((presses - 1) as nat);
    }
}

/// Law: the selection invariant holds after every transition — after any
/// key of the transition table and after any listing or read answer,
/// successful or failed.
pub proof fn lemma_transitions_preserve_wf(
    s: SessionView,
    key: Key,
    listing: Result<Seq<String>, Seq<char>>,
    target: Seq<char>,
    read: Result<Seq<char>, Seq<char>>,
)
    requires
        s.wf(),
    ensures
        step_key(s, key).wf(),
        step_listing(s, listing).wf(),
        step_read(s, target, read).wf(),
{
}

/// Law: Right then Left round-trips the path.  Descending into the
/// selected child and ascending again, with both listings answered
/// successfully, returns the path to its prior value; the children are
/// then exactly what the second listing — a fresh listing of that prior
/// path — reported, with the first of them selected; the log is
/// untouched.
pub proof fn lemma_right_then_left_round_trip(s: SessionView, first: Seq<String>, second: Seq<String>)
    requires
        s.wf(),
        s.selected is Some,
        first.len() > 0,
        second.len() > 0,
    ensures
        ({
            let after = step_listing(
                step_key(step_listing(step_key(s, Key::Right), Ok(first)), Key::Left),
                Ok(second),
            );
            &&& after.path == s.path
            &&& after.children == second
            &&& after.selected == Some(0usize)
            &&& after.log == s.log
        }),
{
    assert(right_path(s.path, s.children, s.selected).drop_last() =~= s.path);
}

/// Build `/` followed by the given segments joined with `/`.
fn join_under_root(path: &Vec<String>) -> (s: String)
    ensures
        s@ == path_text(path@),
{
    let mut s = "/".to_owned();
    proof {
        reveal_strlit("/");
        assert(path@.subrange(0, 0) =~= Seq::<String>::empty());
        assert(s@ =~= path_text(path@.subrange(0, 0)));
    }
    let mut i: usize = 0;
    while i < path.len()
        invariant
            i <= path.len(),
            s@ == path_text(path@.subrange(0, i as int)),
        decreases path.len() - i,
    {
        proof {
            reveal_strlit("/");
        }
        if i > 0 {
            s.append("/");
        }
        s.append(path[i].as_str());
        proof {
            let pre = path@.subrange(0, i as int);
            let post = path@.subrange(0, i + 1 as int);
            assert(post.drop_last() =~= pre);
            assert(post.last() == path@[i as int]);
            assert(s@ =~= path_text(post));
        }
        i += 1;
    }
    proof {
        assert(path@.subrange(0, path@.len() as int) =~= path@);
    }
    s
}

} // verus!

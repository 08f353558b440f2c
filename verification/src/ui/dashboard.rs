//! What the dashboard shows: the conversation between two clients in time
//! order, the window of it that fits, and the receiver picked in the inbox.
use vstd::prelude::*;

use crate::text::{is_whitespace, is_ws, push_char};
use crate::types::InboxEntry;
use crate::ui::app::{App, ClientSummary};

verus! {

/// Whether `e` passed between clients `a` and `b`, either way.
pub open spec fn in_conversation(e: InboxEntry, a: usize, b: usize) -> bool {
    (e.from == a as u64 && e.to == b as u64) || (e.from == b as u64 && e.to == a as u64)
}

/// Whether message `i` comes before message `j`: it is older, or as old and
/// received earlier.
pub open spec fn comes_before(es: Seq<InboxEntry>, i: usize, j: usize) -> bool {
    es[i as int].time < es[j as int].time || (es[i as int].time == es[j as int].time && i < j)
}

/// Whether `r` lists, in time order, exactly the messages of `es` between
/// `a` and `b`. Messages as old as each other keep the order they were
/// received in.
pub open spec fn is_conversation(es: Seq<InboxEntry>, a: usize, b: usize, r: Seq<usize>) -> bool {
    &&& forall|k: int|
        0 <= k < r.len() ==> #[trigger] r[k] < es.len() && in_conversation(es[r[k] as int], a, b)
    &&& forall|i: int|
        0 <= i < es.len() && in_conversation(#[trigger] es[i], a, b) ==> r.contains(i as usize)
    &&& forall|x: int, y: int| 0 <= x < y < r.len() ==> comes_before(es, #[trigger] r[x], #[trigger] r[y])
}

/// Inserting a message received after all of `r` just after the messages not
/// newer than it keeps `r` in order.
proof fn lemma_insert_keeps_order(es: Seq<InboxEntry>, r: Seq<usize>, p: int, i: usize)
    requires
        0 <= p <= r.len(),
        i < es.len(),
        forall|k: int| 0 <= k < r.len() ==> #[trigger] r[k] < i,
        forall|x: int, y: int| 0 <= x < y < r.len() ==> comes_before(es, #[trigger] r[x], #[trigger] r[y]),
        forall|q: int| 0 <= q < p ==> es[#[trigger] r[q] as int].time <= es[i as int].time,
        p < r.len() ==> es[r[p] as int].time > es[i as int].time,
    ensures
        forall|x: int, y: int|
            0 <= x < y < r.insert(p, i).len() ==> comes_before(
                es,
                #[trigger] r.insert(p, i)[x],
                #[trigger] r.insert(p, i)[y],
            ),
{
    let s = r.insert(p, i);
    assert forall|x: int, y: int| 0 <= x < y < s.len() implies comes_before(
        es,
        #[trigger] s[x],
        #[trigger] s[y],
    ) by {
        if y < p {
            assert(s[x] == r[x] && s[y] == r[y]);
        } else if y == p {
            assert(s[x] == r[x]);
            assert(es[r[x] as int].time <= es[i as int].time);
        } else if x == p {
            assert(s[y] == r[y - 1]);
            if y - 1 > p {
                assert(comes_before(es, r[p], r[y - 1]));
            }
        } else if x < p {
            assert(s[x] == r[x] && s[y] == r[y - 1]);
        } else {
            assert(s[x] == r[x - 1] && s[y] == r[y - 1]);
        }
    }
}

impl App {
    /// The positions in the inbox of the messages between `sender` and
    /// `receiver`, in time order.
    pub fn conversation(&self, sender: usize, receiver: usize) -> (r: Vec<usize>)
        ensures
            is_conversation(self.inboxes@, sender, receiver, r@),
    {
        let es = &self.inboxes;
        let mut r: Vec<usize> = Vec::new();
        let mut i: usize = 0;
        while i < es.len()
            invariant
                i <= es@.len(),
                forall|k: int| 0 <= k < r@.len() ==> #[trigger] r@[k] < i,
                forall|k: int|
                    0 <= k < r@.len() ==> #[trigger] r@[k] < es@.len() && in_conversation(
                        es@[r@[k] as int],
                        sender,
                        receiver,
                    ),
                forall|j: int|
                    0 <= j < i && in_conversation(#[trigger] es@[j], sender, receiver) ==> r@.contains(
                        j as usize,
                    ),
                forall|x: int, y: int|
                    0 <= x < y < r@.len() ==> comes_before(es@, #[trigger] r@[x], #[trigger] r@[y]),
            decreases es@.len() - i,
        {
            let e = &es[i];
            let hit = (e.from == sender as u64 && e.to == receiver as u64) || (e.from
                == receiver as u64 && e.to == sender as u64);
            if hit {
                let t = e.time;
                let mut p: usize = 0;
                while p < r.len() && es[r[p]].time <= t
                    invariant
                        p <= r@.len(),
                        t == es@[i as int].time,
                        forall|k: int| 0 <= k < r@.len() ==> #[trigger] r@[k] < i,
                        i < es@.len(),
                        forall|q: int| 0 <= q < p ==> es@[#[trigger] r@[q] as int].time <= t,
                    decreases r@.len() - p,
                {
                    p = p + 1;
                }
                let ghost r0 = r@;
                proof {
                    lemma_insert_keeps_order(es@, r0, p as int, i);
                }
                r.insert(p, i);
                proof {
                    assert forall|k: int| 0 <= k < r@.len() implies #[trigger] r@[k] < i + 1 by {
                        if k < p {
                            assert(r@[k] == r0[k]);
                        } else if k > p {
                            assert(r@[k] == r0[k - 1]);
                        }
                    }
                    assert forall|k: int| 0 <= k < r@.len() implies #[trigger] r@[k] < es@.len()
                        && in_conversation(es@[r@[k] as int], sender, receiver) by {
                        if k < p {
                            assert(r@[k] == r0[k]);
                        } else if k > p {
                            assert(r@[k] == r0[k - 1]);
                        }
                    }
                    assert forall|j: int|
                        0 <= j < i + 1 && in_conversation(#[trigger] es@[j], sender, receiver) implies r@.contains(
                        j as usize,
                    ) by {
                        if j == i {
                            assert(r@[p as int] == i);
                        } else {
                            assert(r0.contains(j as usize));
                            let k = choose|k: int| 0 <= k < r0.len() && r0[k] == j as usize;
                            if k < p {
                                assert(r@[k] == r0[k]);
                            } else {
                                assert(r@[k + 1] == r0[k]);
                            }
                        }
                    }
                }
            } else {
                proof {
                    assert forall|k: int| 0 <= k < r@.len() implies #[trigger] r@[k] < i + 1 by {}
                }
            }
            i = i + 1;
        }
        r
    }
}

/// The clients listed in the inbox: all but the current sender, in order.
pub open spec fn inbox_clients(clients: Seq<ClientSummary>, sender: Option<usize>) -> Seq<
    ClientSummary,
> {
    clients.filter(|c: ClientSummary| Some(c.id) != sender)
}

/// Where the newest `total` lines are shown in `height` rows, scrolled up by
/// `scroll` lines: the scroll held to what the lines allow, and the range of
/// lines shown.
pub open spec fn scroll_spec(total: usize, height: usize, scroll: usize) -> (usize, usize, usize) {
    let max_scroll = if total >= height {
        (total - height) as usize
    } else {
        0
    };
    let s = if scroll <= max_scroll {
        scroll
    } else {
        max_scroll
    };
    let end = (total - s) as usize;
    let start = if end >= height {
        (end - height) as usize
    } else {
        0
    };
    (s, start, end)
}

impl App {
    /// Takes as receiver the client highlighted in the inbox list, which
    /// lists every client but the current sender.
    pub fn select_inbox_receiver(&mut self)
        ensures
            ({
                let others = inbox_clients(old(self).clients@, old(self).current_clients.0);
                match old(self).selected.inbox_cli_selected {
                    Some(n) => if n < others.len() {
                        *final(self) == (App {
                            current_clients: (old(self).current_clients.0, Some(others[n as int].id)),
                            ..*old(self)
                        })
                    } else {
                        *final(self) == *old(self)
                    },
                    None => *final(self) == *old(self),
                }
            }),
    {
        let sender = self.current_clients.0;
        let n = match self.selected.inbox_cli_selected {
            Some(n) => n,
            None => {
                return ;
            },
        };
        let ghost cs = self.clients@;
        let mut count: usize = 0;
        let mut i: usize = 0;
        while i < self.clients.len()
            invariant
                cs == self.clients@,
                i <= cs.len(),
                sender == self.current_clients.0,
                self.selected.inbox_cli_selected == Some(n),
                count == inbox_clients(cs.subrange(0, i as int), sender).len(),
                count <= i,
                count <= n,
                *self == *old(self),
            decreases cs.len() - i,
        {
            proof {
                reveal_with_fuel(Seq::<ClientSummary>::filter, 1);
                assert(cs.subrange(0, i + 1).drop_last() =~= cs.subrange(0, i as int));
            }
            if Some(self.clients[i].id) != sender {
                if count == n {
                    let id = self.clients[i].id;
                    proof {
                        let sub = cs.subrange(0, i + 1);
                        assert(inbox_clients(sub, sender).last() == cs[i as int]);
                        lemma_filter_prefix(cs, i + 1, sender);
                    }
                    self.current_clients.1 = Some(id);
                    return ;
                }
                count = count + 1;
            }
            i = i + 1;
        }
        assert(cs.subrange(0, cs.len() as int) =~= cs);
    }

    /// Holds the scroll to what `total` lines in `height` rows allow, and
    /// gives the range of lines to show.
    pub fn scroll_window(&mut self, total: usize, height: usize) -> (r: (usize, usize))
        ensures
            ({
                let (s, start, end) = scroll_spec(total, height, old(self).messages_scroll);
                &&& r == (start, end)
                &&& *final(self) == (App { messages_scroll: s, ..*old(self) })
            }),
    {
        let max_scroll = total.saturating_sub(height);
        if self.messages_scroll > max_scroll {
            self.messages_scroll = max_scroll;
        }
        let end = total.saturating_sub(self.messages_scroll);
        let start = end.saturating_sub(height);
        (start, end)
    }
}

/// The lines shown never reach past the last line, and never more of them
/// than there are rows.
pub proof fn law_scroll_window_fits(total: usize, height: usize, scroll: usize)
    ensures
        ({
            let (s, start, end) = scroll_spec(total, height, scroll);
            &&& start <= end <= total
            &&& end - start <= height
            &&& s <= scroll
        }),
{
}

/// The clients listed from the first `k` keep their places in the list of
/// all of them.
proof fn lemma_filter_prefix(cs: Seq<ClientSummary>, k: int, sender: Option<usize>)
    requires
        0 <= k <= cs.len(),
    ensures
        inbox_clients(cs.subrange(0, k), sender).len() <= inbox_clients(cs, sender).len(),
        forall|j: int|
            0 <= j < inbox_clients(cs.subrange(0, k), sender).len() ==> #[trigger] inbox_clients(
                cs,
                sender,
            )[j] == inbox_clients(cs.subrange(0, k), sender)[j],
    decreases cs.len() - k,
{
    reveal_with_fuel(Seq::<ClientSummary>::filter, 1);
    if k == cs.len() {
        assert(cs.subrange(0, k) =~= cs);
    } else {
        lemma_filter_prefix(cs.drop_last(), k, sender);
        assert(cs.drop_last().subrange(0, k) =~= cs.subrange(0, k));
    }
}

/// The number of bytes `s` takes in UTF-8, as `str::len` returns it.
pub open spec fn byte_len(s: Seq<char>) -> nat {
    (vstd::utf8::encode_utf8(s).len() as usize) as nat
}

/// Splitting `s` at white space, from the left: the words finished so far
/// and the word being read.
pub open spec fn split_words_acc(s: Seq<char>) -> (Seq<Seq<char>>, Seq<char>)
    decreases s.len(),
{
    if s.len() == 0 {
        (Seq::empty(), Seq::empty())
    } else {
        let (words, cur) = split_words_acc(s.drop_last());
        let c = s.last();
        if is_ws(c) {
            if cur.len() > 0 {
                (words.push(cur), Seq::empty())
            } else {
                (words, cur)
            }
        } else {
            (words, cur.push(c))
        }
    }
}

/// The words of `s`: its longest runs of characters that are not white
/// space, in order, as `str::split_whitespace` gives them.
pub open spec fn words_of(s: Seq<char>) -> Seq<Seq<char>> {
    let (words, cur) = split_words_acc(s);
    if cur.len() > 0 {
        words.push(cur)
    } else {
        words
    }
}

/// Filling lines with `words` one after another: the lines finished so far
/// and the line being filled. A word joins the line, after one space, while
/// the line stays within `max` bytes; otherwise it starts the next line.
pub open spec fn fill_acc(words: Seq<Seq<char>>, max: nat) -> (Seq<Seq<char>>, Seq<char>)
    decreases words.len(),
{
    if words.len() == 0 {
        (Seq::empty(), Seq::empty())
    } else {
        let (lines, cur) = fill_acc(words.drop_last(), max);
        let w = words.last();
        if cur.len() == 0 {
            (lines, w)
        } else if byte_len(cur) + 1 + byte_len(w) <= max {
            (lines, cur.push(' ') + w)
        } else {
            (lines.push(cur), w)
        }
    }
}

/// The lines that `text` wraps into at `max` bytes: its words filled line by
/// line, and one empty line when there are no words.
pub open spec fn wrap_spec(text: Seq<char>, max: nat) -> Seq<Seq<char>> {
    let (lines, cur) = fill_acc(words_of(text), max);
    let all = if cur.len() > 0 {
        lines.push(cur)
    } else {
        lines
    };
    if all.len() == 0 {
        seq![Seq::<char>::empty()]
    } else {
        all
    }
}

/// Puts the word just read onto the lines.
fn place_word(
    lines: &mut Vec<String>,
    current: &mut String,
    word: String,
    max_width: usize,
    Ghost(words): Ghost<Seq<Seq<char>>>,
)
    requires
        word@.len() > 0,
        (old(lines)@.map_values(|l: String| l@), old(current)@) == fill_acc(words, max_width as nat),
    ensures
        (final(lines)@.map_values(|l: String| l@), final(current)@) == fill_acc(
            words.push(word@),
            max_width as nat,
        ),
{
    let ghost ws = words.push(word@);
    assert(ws.drop_last() =~= words);
    assert(ws.last() == word@);
    let ghost before = fill_acc(words, max_width as nat);
    assert(fill_acc(ws, max_width as nat) == (if before.1.len() == 0 {
        (before.0, word@)
    } else if byte_len(before.1) + 1 + byte_len(word@) <= max_width as nat {
        (before.0, before.1.push(' ') + word@)
    } else {
        (before.0.push(before.1), word@)
    }));
    if current.as_str().is_empty() {
        *current = word;
    } else if (current.as_str().len() as u128) + 1 + (word.as_str().len() as u128) <= max_width as u128 {
        push_char(current, ' ');
        let joined = current.clone().concat(word.as_str());
        *current = joined;
    } else {
        let done = current.clone();
        lines.push(done);
        *current = word;
        assert(lines@.map_values(|l: String| l@) =~= old(lines)@.map_values(|l: String| l@).push(
            old(current)@,
        ));
    }
}

/// Breaks `text` into lines of at most `max_width` bytes at white space; a
/// word longer than that stands on a line of its own.
pub fn wrap_text(text: &str, max_width: usize) -> (r: Vec<String>)
    ensures
        r@.map_values(|l: String| l@) == wrap_spec(text@, max_width as nat),
{
    broadcast use vstd::string::group_string_axioms;

    let mut lines: Vec<String> = Vec::new();
    let mut current = String::new();
    let mut word = String::new();
    assert(lines@.map_values(|l: String| l@) =~= Seq::<Seq<char>>::empty());
    for c in it: text.chars()
        invariant
            it.seq() == text@,
            ({
                let (ws, cur) = split_words_acc(text@.subrange(0, it.index()));
                &&& word@ == cur
                &&& (lines@.map_values(|l: String| l@), current@) == fill_acc(ws, max_width as nat)
            }),
    {
        let ghost i = it.index();
        let ghost pre = text@.subrange(0, i + 1);
        assert(pre.drop_last() =~= text@.subrange(0, i));
        assert(pre.last() == c);
        let ghost ws = split_words_acc(text@.subrange(0, i)).0;
        if is_whitespace(c) {
            if !word.as_str().is_empty() {
                let w = word;
                word = String::new();
                place_word(&mut lines, &mut current, w, max_width, Ghost(ws));
            }
        } else {
            push_char(&mut word, c);
        }
    }
    assert(text@.subrange(0, text@.len() as int) =~= text@);
    let ghost ws = split_words_acc(text@).0;
    if !word.as_str().is_empty() {
        place_word(&mut lines, &mut current, word, max_width, Ghost(ws));
    }
    if !current.as_str().is_empty() {
        lines.push(current);
    }
    if lines.len() == 0 {
        lines.push(String::new());
    }
    proof {
        assert(lines@.map_values(|l: String| l@) =~= wrap_spec(text@, max_width as nat));
    }
    lines
}

/// Lines joined with one space between each two.
pub open spec fn join_lines(ls: Seq<Seq<char>>) -> Seq<char>
    decreases ls.len(),
{
    if ls.len() == 0 {
        Seq::empty()
    } else if ls.len() == 1 {
        ls[0]
    } else {
        join_lines(ls.drop_last()).push(' ') + ls.last()
    }
}

proof fn lemma_join_push(ls: Seq<Seq<char>>, x: Seq<char>)
    ensures
        join_lines(ls.push(x)) == if ls.len() == 0 {
            x
        } else {
            join_lines(ls).push(' ') + x
        },
{
    assert(ls.push(x).drop_last() =~= ls);
    if ls.len() == 0 {
        assert(ls.push(x)[0] == x);
    }
}

proof fn lemma_words_nonempty(s: Seq<char>)
    ensures
        forall|k: int|
            0 <= k < split_words_acc(s).0.len() ==> #[trigger] split_words_acc(s).0[k].len() > 0,
        forall|k: int| 0 <= k < words_of(s).len() ==> #[trigger] words_of(s)[k].len() > 0,
    decreases s.len(),
{
    if s.len() > 0 {
        lemma_words_nonempty(s.drop_last());
        let (w0, c0) = split_words_acc(s.drop_last());
        let w = split_words_acc(s).0;
        assert forall|k: int| 0 <= k < w.len() implies #[trigger] w[k].len() > 0 by {
            if k < w0.len() {
                assert(w[k] == w0[k]);
            }
        }
    }
    let (w, c) = split_words_acc(s);
    assert forall|k: int| 0 <= k < words_of(s).len() implies #[trigger] words_of(s)[k].len() > 0 by {
        if k < w.len() {
            assert(words_of(s)[k] == w[k]);
        }
    }
}

proof fn lemma_fill_joins(ws: Seq<Seq<char>>, max: nat)
    requires
        ws.len() > 0,
        forall|k: int| 0 <= k < ws.len() ==> #[trigger] ws[k].len() > 0,
    ensures
        fill_acc(ws, max).1.len() > 0,
        join_lines(fill_acc(ws, max).0.push(fill_acc(ws, max).1)) == join_lines(ws),
    decreases ws.len(),
{
    let w = ws.last();
    assert(w == ws[ws.len() - 1]);
    if ws.len() == 1 {
        assert(ws.drop_last() =~= Seq::<Seq<char>>::empty());
        lemma_join_push(Seq::<Seq<char>>::empty(), w);
        assert(ws =~= seq![w]);
    } else {
        let prev = ws.drop_last();
        assert forall|k: int| 0 <= k < prev.len() implies #[trigger] prev[k].len() > 0 by {
            assert(prev[k] == ws[k]);
        }
        lemma_fill_joins(prev, max);
        let (lines, cur) = fill_acc(prev, max);
        assert(ws =~= prev.push(w));
        lemma_join_push(prev, w);
        assert(prev.len() > 0);
        lemma_join_push(lines, cur);
        if byte_len(cur) + 1 + byte_len(w) <= max {
            lemma_join_push(lines, cur.push(' ') + w);
            if lines.len() == 0 {
                assert(cur.push(' ') + w =~= join_lines(prev).push(' ') + w);
            } else {
                assert(join_lines(lines).push(' ') + (cur.push(' ') + w) =~= (join_lines(
                    lines,
                ).push(' ') + cur).push(' ') + w);
            }
        } else {
            lemma_join_push(lines.push(cur), w);
        }
    }
}

/// Wrapping loses, adds and reorders nothing: the lines joined with single
/// spaces are the words of the text joined with single spaces.
pub proof fn law_wrap_keeps_words(text: Seq<char>, max: nat)
    ensures
        join_lines(wrap_spec(text, max)) == join_lines(words_of(text)),
{
    let ws = words_of(text);
    lemma_words_nonempty(text);
    if ws.len() == 0 {
        assert(fill_acc(ws, max) == (Seq::<Seq<char>>::empty(), Seq::<char>::empty()));
        assert(join_lines(seq![Seq::<char>::empty()]) == Seq::<char>::empty());
    } else {
        lemma_fill_joins(ws, max);
    }
}

/// The widest of `ls` in bytes, or zero when there are none.
pub open spec fn widest(ls: Seq<Seq<char>>) -> nat
    decreases ls.len(),
{
    if ls.len() == 0 {
        0
    } else {
        let w = widest(ls.drop_last());
        if byte_len(ls.last()) > w {
            byte_len(ls.last())
        } else {
            w
        }
    }
}

/// `n` copies of `c`.
pub open spec fn repeat(c: char, n: nat) -> Seq<char> {
    Seq::new(n, |i: int| c)
}

/// The top edge of a bubble `w` bytes wide inside.
pub open spec fn bubble_top(w: nat) -> Seq<char> {
    seq!['┌'] + repeat('─', w + 2) + seq!['┐']
}

/// The bottom edge of a bubble `w` bytes wide inside.
pub open spec fn bubble_bottom(w: nat) -> Seq<char> {
    seq!['└'] + repeat('─', w + 2) + seq!['┘']
}

/// One line of text inside a bubble `w` wide: between borders, padded with
/// spaces up to `w` characters, as `{:<w$}` pads.
pub open spec fn bubble_row(l: Seq<char>, w: nat) -> Seq<char> {
    let pad = if l.len() < w {
        (w - l.len()) as nat
    } else {
        0
    };
    seq!['│', ' '] + l + repeat(' ', pad) + seq![' ', '│']
}

/// The rows of a speech bubble around `msg` wrapped at `max` bytes: the top
/// edge, one row for each wrapped line, and the bottom edge, all as wide as
/// the widest line.
pub open spec fn bubble_spec(msg: Seq<char>, max: nat) -> Seq<Seq<char>> {
    let lines = wrap_spec(msg, max);
    let w = widest(lines);
    seq![bubble_top(w)] + lines.map_values(|l: Seq<char>| bubble_row(l, w)) + seq![
        bubble_bottom(w),
    ]
}

/// Appends `n` copies of `c` to `s`.
fn push_repeat(s: &mut String, c: char, n: usize)
    ensures
        final(s)@ == old(s)@ + repeat(c, n as nat),
{
    let mut i: usize = 0;
    while i < n
        invariant
            i <= n,
            s@ == old(s)@ + repeat(c, i as nat),
        decreases n - i,
    {
        push_char(s, c);
        i = i + 1;
        assert(s@ =~= old(s)@ + repeat(c, i as nat));
    }
}

/// The rows of a speech bubble around `msg`, wrapped at `max_width` bytes.
pub fn bubble_rows(msg: &str, max_width: usize) -> (r: Vec<String>)
    requires
        widest(wrap_spec(msg@, max_width as nat)) + 2 <= usize::MAX,
    ensures
        r@.map_values(|l: String| l@) == bubble_spec(msg@, max_width as nat),
{
    let wrapped = wrap_text(msg, max_width);
    let ghost lines = wrap_spec(msg@, max_width as nat);
    let mut w: usize = 0;
    let mut i: usize = 0;
    while i < wrapped.len()
        invariant
            wrapped@.map_values(|l: String| l@) == lines,
            i <= wrapped@.len(),
            w == widest(lines.subrange(0, i as int)),
        decreases wrapped@.len() - i,
    {
        let n = wrapped[i].as_str().len();
        proof {
            assert(lines.subrange(0, i + 1).drop_last() =~= lines.subrange(0, i as int));
            assert(lines[i as int] == wrapped@[i as int]@);
        }
        if n > w {
            w = n;
        }
        i = i + 1;
    }
    assert(lines.subrange(0, lines.len() as int) =~= lines);
    let mut top = String::new();
    push_char(&mut top, '┌');
    push_repeat(&mut top, '─', w + 2);
    push_char(&mut top, '┐');
    assert(top@ =~= bubble_top(w as nat));
    let mut rows: Vec<String> = Vec::new();
    rows.push(top);
    let mut j: usize = 0;
    while j < wrapped.len()
        invariant
            wrapped@.map_values(|l: String| l@) == lines,
            j <= wrapped@.len(),
            w == widest(lines),
            rows@.map_values(|l: String| l@) == seq![bubble_top(w as nat)] + lines.subrange(
                0,
                j as int,
            ).map_values(|l: Seq<char>| bubble_row(l, w as nat)),
        decreases wrapped@.len() - j,
    {
        let l = &wrapped[j];
        let chars = l.as_str().unicode_len();
        let mut row = String::new();
        push_char(&mut row, '│');
        push_char(&mut row, ' ');
        row = row.concat(l.as_str());
        let pad = if chars < w {
            w - chars
        } else {
            0
        };
        push_repeat(&mut row, ' ', pad);
        push_char(&mut row, ' ');
        push_char(&mut row, '│');
        proof {
            assert(lines[j as int] == l@);
            assert(row@ =~= bubble_row(l@, w as nat));
        }
        let ghost prev = rows@;
        rows.push(row);
        j = j + 1;
        proof {
            assert(rows@.map_values(|l: String| l@) =~= prev.map_values(|l: String| l@).push(
                bubble_row(lines[j - 1], w as nat),
            ));
            assert(lines.subrange(0, j as int).map_values(|l: Seq<char>| bubble_row(l, w as nat))
                =~= lines.subrange(0, j - 1).map_values(|l: Seq<char>| bubble_row(l, w as nat)).push(
                bubble_row(lines[j - 1], w as nat),
            ));
            assert(rows@.map_values(|l: String| l@) =~= seq![bubble_top(w as nat)] + lines.subrange(
                0,
                j as int,
            ).map_values(|l: Seq<char>| bubble_row(l, w as nat)));
        }
    }
    let mut bottom = String::new();
    push_char(&mut bottom, '└');
    push_repeat(&mut bottom, '─', w + 2);
    push_char(&mut bottom, '┘');
    assert(bottom@ =~= bubble_bottom(w as nat));
    rows.push(bottom);
    proof {
        assert(lines.subrange(0, lines.len() as int) =~= lines);
        assert(rows@.map_values(|l: String| l@) =~= bubble_spec(msg@, max_width as nat));
    }
    rows
}

proof fn lemma_encode_concat(a: Seq<char>, b: Seq<char>)
    ensures
        vstd::utf8::encode_utf8(a + b) == vstd::utf8::encode_utf8(a) + vstd::utf8::encode_utf8(b),
    decreases a.len(),
{
    if a.len() == 0 {
        assert(a + b =~= b);
        assert(vstd::utf8::encode_utf8(a) =~= Seq::<u8>::empty());
        assert(Seq::<u8>::empty() + vstd::utf8::encode_utf8(b) =~= vstd::utf8::encode_utf8(b));
    } else {
        lemma_encode_concat(a.drop_first(), b);
        assert((a + b).drop_first() =~= a.drop_first() + b);
        assert((a + b)[0] == a[0]);
        let e0 = vstd::utf8::encode_scalar(a[0] as u32);
        assert(e0 + (vstd::utf8::encode_utf8(a.drop_first()) + vstd::utf8::encode_utf8(b)) =~= (e0
            + vstd::utf8::encode_utf8(a.drop_first())) + vstd::utf8::encode_utf8(b));
    }
}

/// Whether line `l` keeps within `max` bytes or is one of the words `ws`.
pub open spec fn fits_or_word(l: Seq<char>, max: nat, ws: Seq<Seq<char>>) -> bool {
    vstd::utf8::encode_utf8(l).len() <= max || ws.contains(l)
}

proof fn lemma_fill_fits(ws: Seq<Seq<char>>, max: nat)
    requires
        max <= usize::MAX,
        forall|k: int| 0 <= k < ws.len() ==> vstd::utf8::encode_utf8(#[trigger] ws[k]).len() <= usize::MAX,
    ensures
        forall|k: int|
            0 <= k < fill_acc(ws, max).0.len() ==> fits_or_word(
                #[trigger] fill_acc(ws, max).0[k],
                max,
                ws,
            ),
        fill_acc(ws, max).1.len() > 0 ==> fits_or_word(fill_acc(ws, max).1, max, ws),
    decreases ws.len(),
{
    if ws.len() > 0 {
        let prev = ws.drop_last();
        let w = ws.last();
        assert(w == ws[ws.len() - 1]);
        assert(ws.contains(w));
        assert forall|k: int| 0 <= k < prev.len() implies vstd::utf8::encode_utf8(
            #[trigger] prev[k],
        ).len() <= usize::MAX by {
            assert(prev[k] == ws[k]);
        }
        lemma_fill_fits(prev, max);
        let (lines, cur) = fill_acc(prev, max);
        assert forall|l: Seq<char>| fits_or_word(l, max, prev) implies fits_or_word(l, max, ws) by {
            if prev.contains(l) {
                let k = choose|k: int| 0 <= k < prev.len() && prev[k] == l;
                assert(ws[k] == l);
            }
        }
        if cur.len() > 0 {
            let ec = vstd::utf8::encode_utf8(cur).len();
            let ew = vstd::utf8::encode_utf8(w).len();
            assert(ec <= usize::MAX) by {
                if prev.contains(cur) {
                    let k = choose|k: int| 0 <= k < prev.len() && prev[k] == cur;
                }
            }
            assert(byte_len(cur) == ec);
            assert(byte_len(w) == ew);
            if byte_len(cur) + 1 + byte_len(w) <= max {
                let joined = cur.push(' ') + w;
                lemma_encode_concat(cur.push(' '), w);
                lemma_encode_concat(cur, seq![' ']);
                assert(cur.push(' ') =~= cur + seq![' ']);
                assert(vstd::utf8::encode_utf8(seq![' ']).len() == 1) by {
                    assert(seq![' '].drop_first() =~= Seq::<char>::empty());
                    assert(vstd::utf8::encode_utf8(Seq::<char>::empty()) =~= Seq::<u8>::empty());
                }
                assert(vstd::utf8::encode_utf8(joined).len() <= max);
            }
        }
        let (lines2, cur2) = fill_acc(ws, max);
        assert forall|k: int| 0 <= k < lines2.len() implies fits_or_word(
            #[trigger] lines2[k],
            max,
            ws,
        ) by {
            if k < lines.len() {
                assert(lines2[k] == lines[k]);
            }
        }
    }
}

/// Every wrapped line keeps within the width, unless it is a single word
/// wider than that, for every text whose words each fit in memory.
pub proof fn law_wrap_lines_fit(text: Seq<char>, max: usize)
    requires
        forall|k: int|
            0 <= k < words_of(text).len() ==> vstd::utf8::encode_utf8(#[trigger] words_of(text)[k]).len()
                <= usize::MAX,
    ensures
        forall|k: int|
            0 <= k < wrap_spec(text, max as nat).len() ==> fits_or_word(
                #[trigger] wrap_spec(text, max as nat)[k],
                max as nat,
                words_of(text),
            ),
{
    let ws = words_of(text);
    lemma_fill_fits(ws, max as nat);
    let (lines, cur) = fill_acc(ws, max as nat);
    let all = if cur.len() > 0 {
        lines.push(cur)
    } else {
        lines
    };
    assert forall|k: int| 0 <= k < wrap_spec(text, max as nat).len() implies fits_or_word(
        #[trigger] wrap_spec(text, max as nat)[k],
        max as nat,
        ws,
    ) by {
        if all.len() == 0 {
            assert(vstd::utf8::encode_utf8(Seq::<char>::empty()) =~= Seq::<u8>::empty());
        } else if k < lines.len() {
            assert(all[k] == lines[k]);
        }
    }
}

proof fn lemma_fill_lines_nonempty(ws: Seq<Seq<char>>, max: nat)
    ensures
        forall|k: int| 0 <= k < fill_acc(ws, max).0.len() ==> #[trigger] fill_acc(ws, max).0[k].len() > 0,
    decreases ws.len(),
{
    if ws.len() > 0 {
        let prev = ws.drop_last();
        lemma_fill_lines_nonempty(prev, max);
        let (lines, cur) = fill_acc(prev, max);
        let lines2 = fill_acc(ws, max).0;
        assert forall|k: int| 0 <= k < lines2.len() implies #[trigger] lines2[k].len() > 0 by {
            if k < lines.len() {
                assert(lines2[k] == lines[k]);
            }
        }
    }
}

/// Wrapping gives at least one line, and an empty line only for a text
/// without words, which wraps into exactly one empty line.
pub proof fn law_wrap_lines_not_empty(text: Seq<char>, max: nat)
    ensures
        wrap_spec(text, max).len() > 0,
        words_of(text).len() == 0 ==> wrap_spec(text, max) == seq![Seq::<char>::empty()],
        words_of(text).len() > 0 ==> forall|k: int|
            0 <= k < wrap_spec(text, max).len() ==> #[trigger] wrap_spec(text, max)[k].len() > 0,
{
    let ws = words_of(text);
    lemma_words_nonempty(text);
    lemma_fill_lines_nonempty(ws, max);
    let (lines, cur) = fill_acc(ws, max);
    if ws.len() == 0 {
        assert(fill_acc(ws, max) == (Seq::<Seq<char>>::empty(), Seq::<char>::empty()));
    } else {
        lemma_fill_joins(ws, max);
        let all = lines.push(cur);
        assert(wrap_spec(text, max) == all);
        assert forall|k: int| 0 <= k < all.len() implies #[trigger] all[k].len() > 0 by {
            if k < lines.len() {
                assert(all[k] == lines[k]);
            }
        }
    }
}

/// Lines `a` and `b` would not fit together, one space apart, on a line of
/// `max` bytes.
pub open spec fn cannot_merge(a: Seq<char>, b: Seq<char>, max: nat) -> bool {
    vstd::utf8::encode_utf8(a).len() + 1 + vstd::utf8::encode_utf8(b).len() > max
}

/// The first word of a wrapped line: its characters up to the first space.
pub open spec fn head_word(l: Seq<char>) -> Seq<char>
    decreases l.len(),
{
    if l.len() == 0 || l[0] == ' ' {
        Seq::empty()
    } else {
        seq![l[0]] + head_word(l.drop_first())
    }
}

proof fn lemma_head_word_join(a: Seq<char>, b: Seq<char>)
    ensures
        head_word(a.push(' ') + b) == head_word(a),
    decreases a.len(),
{
    if a.len() == 0 {
        assert((a.push(' ') + b)[0] == ' ');
    } else if a[0] == ' ' {
        assert((a.push(' ') + b)[0] == ' ');
    } else {
        lemma_head_word_join(a.drop_first(), b);
        assert((a.push(' ') + b).drop_first() =~= a.drop_first().push(' ') + b);
        assert((a.push(' ') + b)[0] == a[0]);
    }
}

proof fn lemma_head_word_of_word(w: Seq<char>)
    requires
        forall|i: int| 0 <= i < w.len() ==> !is_ws(#[trigger] w[i]),
    ensures
        head_word(w) == w,
    decreases w.len(),
{
    if w.len() > 0 {
        assert(!is_ws(w[0]));
        let t = w.drop_first();
        assert forall|i: int| 0 <= i < t.len() implies !is_ws(#[trigger] t[i]) by {
            assert(t[i] == w[i + 1]);
        }
        lemma_head_word_of_word(t);
        assert(seq![w[0]] + t =~= w);
    }
}

proof fn lemma_words_no_ws(s: Seq<char>)
    ensures
        forall|i: int| 0 <= i < split_words_acc(s).1.len() ==> !is_ws(#[trigger] split_words_acc(s).1[i]),
        forall|k: int, i: int|
            0 <= k < split_words_acc(s).0.len() && 0 <= i < split_words_acc(s).0[k].len() ==> !is_ws(
                #[trigger] split_words_acc(s).0[k][i],
            ),
        forall|k: int, i: int|
            0 <= k < words_of(s).len() && 0 <= i < words_of(s)[k].len() ==> !is_ws(
                #[trigger] words_of(s)[k][i],
            ),
    decreases s.len(),
{
    if s.len() > 0 {
        lemma_words_no_ws(s.drop_last());
        let (w0, c0) = split_words_acc(s.drop_last());
        let (w, c) = split_words_acc(s);
        assert forall|i: int| 0 <= i < c.len() implies !is_ws(#[trigger] c[i]) by {
            if i < c0.len() {
                assert(c[i] == c0[i]);
            }
        }
        assert forall|k: int, i: int| 0 <= k < w.len() && 0 <= i < w[k].len() implies !is_ws(
            #[trigger] w[k][i],
        ) by {
            if k < w0.len() {
                assert(w[k] == w0[k]);
            } else {
                assert(w[k] == c0);
            }
        }
    }
    let (w, c) = split_words_acc(s);
    assert forall|k: int, i: int| 0 <= k < words_of(s).len() && 0 <= i < words_of(s)[k].len() implies !is_ws(
        #[trigger] words_of(s)[k][i],
    ) by {
        if k < w.len() {
            assert(words_of(s)[k] == w[k]);
        } else {
            assert(words_of(s)[k] == c);
        }
    }
}

proof fn lemma_fill_greedy(ws: Seq<Seq<char>>, max: nat)
    requires
        max <= usize::MAX,
        forall|k: int| 0 <= k < ws.len() ==> #[trigger] ws[k].len() > 0,
        forall|k: int| 0 <= k < ws.len() ==> vstd::utf8::encode_utf8(#[trigger] ws[k]).len() <= usize::MAX,
        forall|k: int, i: int| 0 <= k < ws.len() && 0 <= i < ws[k].len() ==> !is_ws(#[trigger] ws[k][i]),
    ensures
        forall|i: int, k: int|
            0 <= i && k == i + 1 && k < fill_acc(ws, max).0.len() ==> cannot_merge(
                #[trigger] fill_acc(ws, max).0[i],
                head_word(#[trigger] fill_acc(ws, max).0[k]),
                max,
            ),
        fill_acc(ws, max).0.len() > 0 ==> cannot_merge(
            fill_acc(ws, max).0.last(),
            head_word(fill_acc(ws, max).1),
            max,
        ),
        fill_acc(ws, max).1.len() > 0 ==> vstd::utf8::encode_utf8(fill_acc(ws, max).1).len() <= usize::MAX,
        fill_acc(ws, max).1.len() > 0 ==> ws.contains(head_word(fill_acc(ws, max).1)),
        forall|k: int|
            0 <= k < fill_acc(ws, max).0.len() ==> ws.contains(head_word(#[trigger] fill_acc(ws, max).0[k])),
    decreases ws.len(),
{
    if ws.len() > 0 {
        let prev = ws.drop_last();
        let w = ws.last();
        assert(w == ws[ws.len() - 1]);
        assert(ws.contains(w));
        assert forall|k: int| 0 <= k < prev.len() implies #[trigger] prev[k].len() > 0
            && vstd::utf8::encode_utf8(prev[k]).len() <= usize::MAX by {
            assert(prev[k] == ws[k]);
        }
        assert forall|k: int, i: int| 0 <= k < prev.len() && 0 <= i < prev[k].len() implies !is_ws(
            #[trigger] prev[k][i],
        ) by {
            assert(prev[k] == ws[k]);
        }
        assert forall|i: int| 0 <= i < w.len() implies !is_ws(#[trigger] w[i]) by {
            assert(w[i] == ws[ws.len() - 1][i]);
        }
        lemma_head_word_of_word(w);
        lemma_fill_greedy(prev, max);
        let (lines, cur) = fill_acc(prev, max);
        assert forall|l: Seq<char>| prev.contains(l) implies ws.contains(l) by {
            let k = choose|k: int| 0 <= k < prev.len() && prev[k] == l;
            assert(ws[k] == l);
        }
        if prev.len() > 0 {
            lemma_fill_joins(prev, max);
        } else {
            assert(lines.len() == 0);
        }
        let lines_new = fill_acc(ws, max).0;
        assert forall|k: int| 0 <= k < lines_new.len() implies ws.contains(head_word(#[trigger] lines_new[k])) by {
            if k < lines.len() {
                assert(lines_new[k] == lines[k]);
            } else {
                assert(lines_new[k] == cur);
            }
        }
        if cur.len() > 0 {
            let ec = vstd::utf8::encode_utf8(cur).len();
            let ew = vstd::utf8::encode_utf8(w).len();
            assert(byte_len(cur) == ec);
            assert(byte_len(w) == ew);
            if byte_len(cur) + 1 + byte_len(w) <= max {
                let joined = cur.push(' ') + w;
                lemma_head_word_join(cur, w);
                lemma_encode_concat(cur.push(' '), w);
                lemma_encode_concat(cur, seq![' ']);
                assert(cur.push(' ') =~= cur + seq![' ']);
                assert(vstd::utf8::encode_utf8(seq![' ']).len() == 1) by {
                    assert(seq![' '].drop_first() =~= Seq::<char>::empty());
                    assert(vstd::utf8::encode_utf8(Seq::<char>::empty()) =~= Seq::<u8>::empty());
                }
                assert(vstd::utf8::encode_utf8(joined).len() == ec + 1 + ew);
            } else {
                let lines2 = lines.push(cur);
                assert forall|i: int, k: int|
                    0 <= i && k == i + 1 && k < lines2.len() implies cannot_merge(
                    #[trigger] lines2[i],
                    head_word(#[trigger] lines2[k]),
                    max,
                ) by {
                    if k < lines.len() {
                        assert(lines2[i] == lines[i]);
                        assert(lines2[k] == lines[k]);
                    } else {
                        assert(lines2[i] == lines.last());
                        assert(lines2[k] == cur);
                    }
                }
            }
        }
    }
}

/// A line is broken only where the next word would not fit: each wrapped
/// line and the first word of the line after it would not fit together, one
/// space apart, within the width, for every text whose words each fit in
/// memory. That first word is one of the words of the text.
pub proof fn law_wrap_lines_greedy(text: Seq<char>, max: usize)
    requires
        forall|k: int|
            0 <= k < words_of(text).len() ==> vstd::utf8::encode_utf8(#[trigger] words_of(text)[k]).len()
                <= usize::MAX,
    ensures
        forall|i: int, k: int|
            0 <= i && k == i + 1 && k < wrap_spec(text, max as nat).len() ==> cannot_merge(
                #[trigger] wrap_spec(text, max as nat)[i],
                head_word(#[trigger] wrap_spec(text, max as nat)[k]),
                max as nat,
            ),
        forall|k: int|
            1 <= k < wrap_spec(text, max as nat).len() ==> words_of(text).contains(
                head_word(#[trigger] wrap_spec(text, max as nat)[k]),
            ),
{
    let ws = words_of(text);
    lemma_words_nonempty(text);
    lemma_words_no_ws(text);
    lemma_fill_greedy(ws, max as nat);
    let (lines, cur) = fill_acc(ws, max as nat);
    let r = wrap_spec(text, max as nat);
    if ws.len() == 0 {
        assert(fill_acc(ws, max as nat) == (Seq::<Seq<char>>::empty(), Seq::<char>::empty()));
    } else {
        lemma_fill_joins(ws, max as nat);
        assert(r == lines.push(cur));
        assert forall|i: int, k: int|
            0 <= i && k == i + 1 && k < r.len() implies cannot_merge(
            #[trigger] r[i],
            head_word(#[trigger] r[k]),
            max as nat,
        ) by {
            if k < lines.len() {
                assert(r[i] == lines[i]);
                assert(r[k] == lines[k]);
            } else {
                assert(r[i] == lines.last());
                assert(r[k] == cur);
            }
        }
        assert forall|k: int| 1 <= k < r.len() implies ws.contains(head_word(#[trigger] r[k])) by {
            if k < lines.len() {
                assert(r[k] == lines[k]);
            } else {
                assert(r[k] == cur);
            }
        }
    }
}

proof fn lemma_chars_le_bytes(s: Seq<char>)
    ensures
        s.len() <= vstd::utf8::encode_utf8(s).len(),
    decreases s.len(),
{
    if s.len() > 0 {
        lemma_chars_le_bytes(s.drop_first());
        assert(vstd::utf8::encode_scalar(s[0] as u32).len() >= 1);
    }
}

proof fn lemma_widest_bounds(ls: Seq<Seq<char>>, k: int)
    requires
        0 <= k < ls.len(),
    ensures
        byte_len(ls[k]) <= widest(ls),
    decreases ls.len(),
{
    if k < ls.len() - 1 {
        lemma_widest_bounds(ls.drop_last(), k);
        assert(ls.drop_last()[k] == ls[k]);
    }
}

/// Every row of a bubble has exactly as many characters as its top and
/// bottom edges: each line is padded with spaces to the width counted in
/// characters, so the right border lines up, for every message whose words
/// each fit in memory. The bubble has one row per wrapped line between its
/// edges.
pub proof fn law_bubble_rows_aligned(msg: Seq<char>, max: usize)
    requires
        forall|k: int|
            0 <= k < words_of(msg).len() ==> vstd::utf8::encode_utf8(#[trigger] words_of(msg)[k]).len()
                <= usize::MAX,
    ensures
        bubble_spec(msg, max as nat).len() == wrap_spec(msg, max as nat).len() + 2,
        forall|k: int|
            0 <= k < bubble_spec(msg, max as nat).len() ==> (#[trigger] bubble_spec(msg, max as nat)[k]).len()
                == bubble_spec(msg, max as nat)[0].len(),
{
    let lines = wrap_spec(msg, max as nat);
    let w = widest(lines);
    let b = bubble_spec(msg, max as nat);
    law_wrap_lines_fit(msg, max);
    assert(bubble_top(w).len() == w + 4);
    assert(bubble_bottom(w).len() == w + 4);
    assert forall|k: int| 0 <= k < b.len() implies (#[trigger] b[k]).len() == w + 4 by {
        if k == 0 {
            assert(b[k] == bubble_top(w));
        } else if k == b.len() - 1 {
            assert(b[k] == bubble_bottom(w));
        } else {
            let l = lines[k - 1];
            assert(b[k] == bubble_row(l, w));
            assert(fits_or_word(l, max as nat, words_of(msg)));
            if words_of(msg).contains(l) {
                let i = choose|i: int| 0 <= i < words_of(msg).len() && words_of(msg)[i] == l;
                assert(vstd::utf8::encode_utf8(words_of(msg)[i]).len() <= usize::MAX);
            }
            assert(vstd::utf8::encode_utf8(l).len() <= usize::MAX);
            lemma_chars_le_bytes(l);
            lemma_widest_bounds(lines, k - 1);
            assert(byte_len(l) == vstd::utf8::encode_utf8(l).len());
        }
    }
}

} // verus!

//! The client of the control plane: where its requests go, what they hold, and what
//! it makes of the answers.

use vstd::prelude::*;
use crate::json::{members, no_members, object, push_member, text_value, Json, JsonV};
use crate::text::{
    chars_of, decimal, decimal_of, has_prefix, is_space, lemma_views_push, opt, skip_space,
    space, split, split_at_char, starts_with, string_of, strip_trailing, trim_end, views,
};

verus! {

// ---------------------------------------------------------------------------
// Requests
// ---------------------------------------------------------------------------

/// The base of a host's addresses: with a scheme and without trailing slashes.
pub open spec fn base_of(host: Seq<char>) -> Seq<char> {
    if has_prefix(host, "http"@) {
        strip_trailing(host, '/')
    } else {
        "http://"@ + strip_trailing(host, '/')
    }
}

/// A client of the control plane of a host.
#[derive(Debug, PartialEq)]
pub struct Client {
    pub base: String,
}

/// What a client sends when it submits a workflow.
pub open spec fn trigger_body(params: JsonV, id: Option<Seq<char>>) -> JsonV {
    let m = seq![("params"@, params)];
    JsonV::Obj(
        match id {
            Some(id) => m.push(("id"@, JsonV::Str(id))),
            None => m,
        },
    )
}

/// What a client sends with a signal.
pub open spec fn signal_body(name: Seq<char>, payload: JsonV) -> JsonV {
    JsonV::Obj(seq![("name"@, JsonV::Str(name)), ("payload"@, payload)])
}

impl Client {
    /// A client of the control plane of a host.
    pub fn new(host: &str) -> (r: Client)
        ensures
            r.base@ == base_of(host@),
    {
        let rest = trim_end(host, '/');
        if starts_with(host, "http") {
            Client { base: rest }
        } else {
            let mut base = "http://".to_string();
            base.append(rest.as_str());
            Client { base }
        }
    }

    fn url(&self, a: &str, b: &str, c: &str) -> (r: String)
        ensures
            r@ == self.base@ + a@ + b@ + c@,
    {
        let mut s = self.base.clone();
        s.append(a);
        s.append(b);
        s.append(c);
        s
    }

    /// Where a workflow of a deployment is submitted, and with what.
    pub fn trigger(&self, name: &str, params: Json, id: Option<String>) -> (r: (String, Json))
        ensures
            r.0@ == self.base@ + "/flows/"@ + name@ + "/trigger"@,
            r.1@ == trigger_body(params@, opt(id)),
    {
        let ghost p = params@;
        let mut m = no_members();
        push_member(&mut m, "params", params);
        assert(members(m@) =~= seq![("params"@, p)]);
        if let Some(i) = id {
            push_member(&mut m, "id", text_value(i.as_str()));
        }
        (self.url("/flows/", name, "/trigger"), object(m))
    }

    /// Where a signal is sent, and with what.
    pub fn signal(&self, id: &str, name: &str, payload: Json) -> (r: (String, Json))
        ensures
            r.0@ == self.base@ + "/workflows/"@ + id@ + "/signals"@,
            r.1@ == signal_body(name@, payload@),
    {
        let ghost p = payload@;
        let mut m = no_members();
        push_member(&mut m, "name", text_value(name));
        push_member(&mut m, "payload", payload);
        assert(members(m@) =~= seq![("name"@, JsonV::Str(name@)), ("payload"@, p)]);
        (self.url("/workflows/", id, "/signals"), object(m))
    }

    /// Where the deployments are asked for.
    pub fn list_flows(&self) -> (r: String)
        ensures
            r@ == self.base@ + "/flows"@,
    {
        let mut s = self.base.clone();
        s.append("/flows");
        s
    }

    /// Where the youngest workflows are asked for.
    pub fn list_workflows(&self, limit: i64) -> (r: String)
        ensures
            r@ == self.base@ + "/workflows?limit="@ + decimal_of(limit as int),
    {
        let mut s = self.base.clone();
        s.append("/workflows?limit=");
        s.append(decimal(limit).as_str());
        s
    }

    /// Where a workflow is asked for.
    pub fn get_workflow(&self, id: &str) -> (r: String)
        ensures
            r@ == self.base@ + "/workflows/"@ + id@,
    {
        let mut s = self.base.clone();
        s.append("/workflows/");
        s.append(id);
        s
    }

    /// Where the log lines of a workflow are asked for.
    pub fn get_logs(&self, id: &str) -> (r: String)
        ensures
            r@ == self.base@ + "/workflows/"@ + id@ + "/logs"@,
    {
        self.url("/workflows/", id, "/logs")
    }

    /// Where the durable state of a workflow is asked for.
    pub fn query(&self, id: &str) -> (r: String)
        ensures
            r@ == self.base@ + "/workflows/"@ + id@ + "/state"@,
    {
        self.url("/workflows/", id, "/state")
    }

    /// Where the events of a workflow are asked for.
    pub fn get_events(&self, id: &str) -> (r: String)
        ensures
            r@ == self.base@ + "/workflows/"@ + id@ + "/events"@,
    {
        self.url("/workflows/", id, "/events")
    }

    /// Where a workflow is followed.
    pub fn stream(&self, id: &str) -> (r: String)
        ensures
            r@ == self.base@ + "/workflows/"@ + id@ + "/stream"@,
    {
        self.url("/workflows/", id, "/stream")
    }
}

// ---------------------------------------------------------------------------
// Answers
// ---------------------------------------------------------------------------

/// The id of the workflow that was submitted, or why it was not, from whether the
/// answer is a success and its body.
pub fn trigger_reply(success: bool, body: &Json) -> (r: Result<String, String>)
    ensures
        match r {
            Ok(id) => success && id@ == body@.field_text("workflow_id"@, ""@),
            Err(e) => !success && e@ == body@.field_text("error"@, "trigger failed"@),
        },
{
    if success {
        Ok(body.text_at("workflow_id", ""))
    } else {
        Err(body.text_at("error", "trigger failed"))
    }
}

/// Why a signal was not sent, if it was not.
pub fn signal_reply(success: bool, body: &Json) -> (r: Result<(), String>)
    ensures
        match r {
            Ok(_) => success,
            Err(e) => !success && e@ == body@.field_text("error"@, "signal failed"@),
        },
{
    if success {
        Ok(())
    } else {
        Err(body.text_at("error", "signal failed"))
    }
}

/// The durable state of a workflow, or why it is not known.
pub fn query_reply(success: bool, body: &Json) -> (r: Result<Json, String>)
    ensures
        match r {
            Ok(j) => success && j@ == body@.at("state"@),
            Err(e) => !success && e@ == body@.field_text("error"@, "query failed"@),
        },
{
    if success {
        match body.get("state") {
            Some(j) => Ok(j.copy()),
            None => Ok(Json::Null),
        }
    } else {
        Err(body.text_at("error", "query failed"))
    }
}

/// The items that an answer lists under a name: none where it lists nothing there.
pub fn items_reply(body: &Json, name: &str) -> (r: Vec<Json>)
    ensures
        views(r@) == body@.at(name@).items(),
{
    body.items_at(name)
}

// ---------------------------------------------------------------------------
// Streams of events
// ---------------------------------------------------------------------------

/// Whether a blank line ends at `i`: two line feeds in a row begin there.
pub open spec fn gap_at(s: Seq<char>, i: int) -> bool {
    0 <= i && i + 1 < s.len() && s[i] == '\n' && s[i + 1] == '\n'
}

/// Where the first two line feeds in a row from `from` on begin, or the length.
pub open spec fn gap_from(s: Seq<char>, from: int) -> int
    decreases s.len() - from,
{
    if from < 0 || from + 1 >= s.len() {
        s.len() as int
    } else if gap_at(s, from) {
        from
    } else {
        gap_from(s, from + 1)
    }
}

/// The frames of a stream, and what is left behind the last one. A blank line ends a
/// frame.
pub open spec fn frames(s: Seq<char>) -> (Seq<Seq<char>>, Seq<char>)
    decreases s.len(),
{
    let p = gap_from(s, 0);
    if 0 <= p < s.len() && p + 2 <= s.len() {
        let (more, rest) = frames(s.skip(p + 2));
        (seq![s.take(p)] + more, rest)
    } else {
        (Seq::empty(), s)
    }
}

/// The lines of a text. A carriage return before a line feed belongs to neither
/// line, and the end of the text ends a line only if it holds something.
pub open spec fn lines(s: Seq<char>) -> Seq<Seq<char>> {
    let parts = split(s, '\n');
    let n = if parts.last().len() == 0 {
        parts.len() - 1
    } else {
        parts.len() as int
    };
    Seq::new(
        n as nat,
        |i: int|
            if i < parts.len() - 1 {
                without_return(parts[i])
            } else {
                parts[i]
            },
    )
}

/// A line without a carriage return at its end.
pub open spec fn without_return(s: Seq<char>) -> Seq<char> {
    if s.len() > 0 && s.last() == '\r' {
        s.drop_last()
    } else {
        s
    }
}

/// What a line adds to the data of its frame.
pub open spec fn line_data(line: Seq<char>) -> Seq<char> {
    if has_prefix(line, "data:"@) {
        skip_space(line.skip("data:"@.len() as int))
    } else {
        Seq::empty()
    }
}

/// The data of the first lines of a frame.
pub open spec fn lines_data(ls: Seq<Seq<char>>) -> Seq<char>
    decreases ls.len(),
{
    if ls.len() == 0 {
        Seq::empty()
    } else {
        lines_data(ls.drop_last()) + line_data(ls.last())
    }
}

/// The data of a frame.
pub open spec fn frame_data(frame: Seq<char>) -> Seq<char> {
    lines_data(lines(frame))
}

/// The data of frames, without those that have none.
pub open spec fn data_of(fs: Seq<Seq<char>>) -> Seq<Seq<char>>
    decreases fs.len(),
{
    if fs.len() == 0 {
        Seq::empty()
    } else {
        let before = data_of(fs.drop_last());
        let d = frame_data(fs.last());
        if d.len() == 0 {
            before
        } else {
            before.push(d)
        }
    }
}

/// What has come of a stream behind its last frame.
#[derive(Debug, PartialEq)]
pub struct SseBuffer {
    pub rest: String,
}

fn find_gap(v: &Vec<char>, from: usize) -> (r: usize)
    requires
        from <= v@.len(),
    ensures
        r == gap_from(v@.skip(from as int), 0) + from,
        from <= r <= v@.len(),
        r < v@.len() ==> r + 2 <= v@.len(),
{
    let ghost s = v@.skip(from as int);
    let mut i: usize = from;
    while i < v.len() && v.len() - i > 1 && !(v[i] == '\n' && v[i + 1] == '\n')
        invariant
            from <= i <= v@.len(),
            s == v@.skip(from as int),
            gap_from(s, 0) == gap_from(s, i - from),
        decreases v@.len() - i,
    {
        i = i + 1;
    }
    if i < v.len() && v.len() - i > 1 {
        assert(gap_at(s, i - from));
        i
    } else {
        v.len()
    }
}

fn frame_text(frame: &str) -> (r: String)
    ensures
        r@ == frame_data(frame@),
{
    let parts = split_at_char(frame, '\n');
    let ghost all = split(frame@, '\n');
    let ghost ls = lines(frame@);
    proof {
        lemma_split_some(frame@, '\n');
    }
    let last = chars_of(parts[parts.len() - 1].as_str());
    assert(last@ == all.last());
    let n: usize = if last.len() == 0 {
        parts.len() - 1
    } else {
        parts.len()
    };
    let mut data = String::new();
    let mut i: usize = 0;
    assert(data@ =~= lines_data(ls.take(0)));
    while i < n
        invariant
            i <= n <= parts@.len(),
            all == views(parts@),
            all == split(frame@, '\n'),
            ls == lines(frame@),
            ls.len() == n,
            data@ == lines_data(ls.take(i as int)),
        decreases n - i,
    {
        proof {
            assert(ls.take(i + 1).drop_last() =~= ls.take(i as int));
            assert(ls.take(i + 1).last() == ls[i as int]);
            assert(all[i as int] == parts@[i as int]@);
        }
        let v = chars_of(parts[i].as_str());
        let mut end: usize = v.len();
        if i < parts.len() - 1 && v.len() > 0 && v[v.len() - 1] == '\r' {
            end = v.len() - 1;
        }
        assert(v@.subrange(0, end as int) =~= ls[i as int]);
        let line = string_of(&v, 0, end);
        let piece = line_text(line.as_str());
        data.append(piece.as_str());
        i = i + 1;
    }
    assert(ls.take(ls.len() as int) =~= ls);
    data
}

proof fn lemma_split_some(s: Seq<char>, c: char)
    ensures
        split(s, c).len() >= 1,
    decreases s.len(),
{
    if s.len() > 0 {
        lemma_split_some(s.drop_last(), c);
    }
}

fn line_text(line: &str) -> (r: String)
    ensures
        r@ == line_data(line@),
{
    if !starts_with(line, "data:") {
        let r = String::new();
        assert(r@ =~= Seq::<char>::empty());
        return r;
    }
    let v = chars_of(line);
    let pre = chars_of("data:");
    let ghost tail = v@.skip(pre@.len() as int);
    assert(has_prefix(line@, pre@));
    let mut at: usize = pre.len();
    while at < v.len() && space(v[at])
        invariant
            pre@.len() <= at <= v@.len(),
            skip_space(v@.skip(at as int)) == skip_space(tail),
        decreases v@.len() - at,
    {
        assert(v@.skip(at as int).skip(1) =~= v@.skip(at + 1));
        at = at + 1;
    }
    assert(v@.subrange(at as int, v@.len() as int) =~= v@.skip(at as int));
    string_of(&v, at, v.len())
}

impl SseBuffer {
    /// A stream of which nothing has come.
    pub fn new() -> (r: SseBuffer)
        ensures
            r.rest@ == Seq::<char>::empty(),
    {
        let r = SseBuffer { rest: String::new() };
        assert(r.rest@ =~= Seq::<char>::empty());
        r
    }

    /// Takes in what came of the stream, and hands out the data of every frame that
    /// is now complete, without those that have none.
    pub fn feed(&mut self, chunk: &str) -> (r: Vec<String>)
        ensures
            views(r@) == data_of(frames(old(self).rest@ + chunk@).0),
            final(self).rest@ == frames(old(self).rest@ + chunk@).1,
    {
        broadcast use lemma_views_push;

        let mut text = self.rest.clone();
        text.append(chunk);
        let v = chars_of(text.as_str());
        let ghost all = v@;
        let ghost mut done: Seq<Seq<char>> = Seq::empty();
        let mut r: Vec<String> = Vec::new();
        let mut from: usize = 0;
        let mut at: usize = find_gap(&v, 0);
        assert(all.skip(0) =~= all);
        assert(views(r@) =~= data_of(done));
        assert(done + frames(all).0 =~= frames(all).0);
        while at < v.len()
            invariant
                all == v@,
                from <= v@.len(),
                at == gap_from(all.skip(from as int), 0) + from,
                from <= at <= v@.len(),
                at < v@.len() ==> at + 2 <= v@.len(),
                views(r@) == data_of(done),
                frames(all).0 == done + frames(all.skip(from as int)).0,
                frames(all).1 == frames(all.skip(from as int)).1,
            decreases v@.len() - at,
        {
            let frame = string_of(&v, from, at);
            let ghost s = all.skip(from as int);
            proof {
                let p = at - from;
                assert(s.take(p) =~= frame@);
                assert(s.skip(p + 2) =~= all.skip(at + 2));
                assert(done + (seq![frame@] + frames(s.skip(p + 2)).0) =~= done.push(frame@)
                    + frames(all.skip(at + 2)).0);
                assert(done.push(frame@).drop_last() =~= done);
                done = done.push(frame@);
            }
            let data = frame_text(frame.as_str());
            if chars_of(data.as_str()).len() > 0 {
                r.push(data);
            }
            from = at + 2;
            at = find_gap(&v, from);
        }
        assert(all.skip(from as int) =~= v@.subrange(from as int, v@.len() as int));
        assert(frames(all.skip(from as int)).0 =~= Seq::<Seq<char>>::empty());
        assert(done + Seq::<Seq<char>>::empty() =~= done);
        self.rest = string_of(&v, from, v.len());
        r
    }
}

// ---------------------------------------------------------------------------
// Laws
// ---------------------------------------------------------------------------

proof fn lemma_gap(s: Seq<char>, from: int)
    requires
        0 <= from <= s.len(),
    ensures
        from <= gap_from(s, from) <= s.len(),
        gap_from(s, from) < s.len() ==> gap_at(s, gap_from(s, from)),
        forall|j: int| from <= j < gap_from(s, from) ==> !gap_at(s, j),
    decreases s.len() - from,
{
    if from + 1 < s.len() && !gap_at(s, from) {
        lemma_gap(s, from + 1);
    }
}

proof fn lemma_gap_is(s: Seq<char>, from: int, i: int)
    requires
        0 <= from <= i < s.len(),
        gap_at(s, i),
        forall|j: int| from <= j < i ==> !gap_at(s, j),
    ensures
        gap_from(s, from) == i,
    decreases s.len() - from,
{
    if from < i {
        assert(!gap_at(s, from));
        lemma_gap_is(s, from + 1, i);
    }
}

/// The frames of a stream do not depend on how it is cut into pieces.
pub proof fn law_frames_of_pieces(a: Seq<char>, b: Seq<char>)
    ensures
        frames(a + b).0 == frames(a).0 + frames(frames(a).1 + b).0,
        frames(a + b).1 == frames(frames(a).1 + b).1,
    decreases a.len(),
{
    lemma_gap(a, 0);
    let p = gap_from(a, 0);
    if p < a.len() {
        let s = a + b;
        assert forall|j: int| 0 <= j < p implies !gap_at(s, j) by {
            assert(!gap_at(a, j));
        }
        assert(gap_at(s, p));
        lemma_gap_is(s, 0, p);
        assert(s.take(p) =~= a.take(p));
        assert(s.skip(p + 2) =~= a.skip(p + 2) + b);
        law_frames_of_pieces(a.skip(p + 2), b);
        assert(frames(s).0 =~= frames(a).0 + frames(frames(a).1 + b).0);
    } else {
        assert(Seq::<Seq<char>>::empty() + frames(a + b).0 =~= frames(a + b).0);
    }
}

proof fn lemma_data_of_both(a: Seq<Seq<char>>, b: Seq<Seq<char>>)
    ensures
        data_of(a + b) == data_of(a) + data_of(b),
    decreases b.len(),
{
    if b.len() == 0 {
        assert(a + b =~= a);
        assert(data_of(a) + data_of(b) =~= data_of(a));
    } else {
        assert((a + b).drop_last() =~= a + b.drop_last());
        lemma_data_of_both(a, b.drop_last());
        assert(data_of(a + b) =~= data_of(a) + data_of(b));
    }
}

/// What is handed out of a stream does not depend on how it is cut into pieces.
pub proof fn law_data_of_pieces(rest: Seq<char>, a: Seq<char>, b: Seq<char>)
    ensures
        data_of(frames(rest + (a + b)).0) == data_of(frames(rest + a).0) + data_of(
            frames(frames(rest + a).1 + b).0,
        ),
        frames(rest + (a + b)).1 == frames(frames(rest + a).1 + b).1,
{
    assert(rest + (a + b) =~= (rest + a) + b);
    law_frames_of_pieces(rest + a, b);
    lemma_data_of_both(frames(rest + a).0, frames(frames(rest + a).1 + b).0);
}

/// An event that is streamed is read: behind a mark and a space stands a text on a line of
/// its own, and an empty line ends it. That text is handed out before whatever follows.
pub proof fn law_streamed_event_is_read(x: Seq<char>, more: Seq<char>)
    requires
        x.len() > 0,
        !is_space(x[0]),
        forall|i: int| 0 <= i < x.len() ==> #[trigger] x[i] != '\n',
    ensures
        ({
            let s = "data: "@ + x + seq!['\n', '\n'] + more;
            &&& data_of(frames(s).0) == seq![x] + data_of(frames(more).0)
            &&& frames(s).1 == frames(more).1
        }),
{
    reveal_strlit("data: ");
    reveal_strlit("data:");
    let f = "data: "@ + x;
    let s = f + seq!['\n', '\n'] + more;
    assert("data: "@ + x + seq!['\n', '\n'] + more =~= s);
    let p = f.len() as int;
    assert forall|i: int| 0 <= i < f.len() implies #[trigger] f[i] != '\n' by {
        if i >= 6 {
            assert(f[i] == x[i - 6]);
        }
    }
    assert forall|j: int| 0 <= j < p implies !gap_at(s, j) by {
        assert(s[j] == f[j]);
    }
    assert(s[p] == '\n' && s[p + 1] == '\n');
    assert(gap_at(s, p));
    lemma_gap_is(s, 0, p);
    assert(s.take(p) =~= f);
    assert(s.skip(p + 2) =~= more);
    crate::cron_laws::law_pieces_of_a_list(f, '\n', Seq::empty());
    assert(split(f, '\n') == seq![f]);
    assert(lines(f) =~= seq![f]);
    assert(f.take(5) =~= "data:"@);
    let d = f.skip(5);
    assert(d[0] == ' ');
    assert(d.skip(1) =~= x);
    assert(is_space(' '));
    assert(skip_space(x) == x);
    assert(skip_space(d) == x);
    assert(line_data(f) == x);
    let one = seq![f];
    assert(one.drop_last() =~= Seq::<Seq<char>>::empty());
    assert(lines_data(one.drop_last()) =~= Seq::<char>::empty());
    assert(lines_data(one) =~= x);
    assert(frame_data(f) == x);
    assert(data_of(one.drop_last()) =~= Seq::<Seq<char>>::empty());
    assert(data_of(one) =~= seq![x]);
    lemma_data_of_both(one, frames(more).0);
}

} // verus!

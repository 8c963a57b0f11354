//! The persistence format: a canonical JSON rendering of the project
//! collection, and its reader.
//!
//! The file is one JSON object mapping each project's identifier to its
//! record; a record holds `id`, `name`, `description` and `tasks`, the
//! latter again an object mapping task identifiers to task records with
//! `id`, `name`, `description`, `type_` and `status`. The rendering is
//! canonical: compact (no inserted whitespace), fields in that order, and
//! a fixed escaping of string content. The reader accepts exactly the
//! canonical renderings, so that a collection read back and saved again
//! reproduces the file byte for byte.

use vstd::prelude::*;
use crate::Error;
use crate::ids::{Identifier, canonical_id, push_char};
use crate::project::{
    Project, ProjectData, ProjectTask, ProjectModel, TaskModel,
    ProjectTaskType, ProjectTaskStatus,
    has_tid, has_pid, unique_tids, unique_pids, task_wf, project_wf, data_wf,
};

verus! {

// ---------------------------------------------------------------------
// The canonical rendering, as specification

/// Does the text `lit` stand at position `i` of `s`?
pub open spec fn matches_at(s: Seq<char>, i: int, lit: Seq<char>) -> bool {
    0 <= i && i + lit.len() <= s.len() && s.subrange(i, i + lit.len()) == lit
}

/// The escaped form of one string character: quote, backslash, newline,
/// carriage return, tab, backspace and form feed take a two-character
/// escape; everything else stands for itself.
pub open spec fn esc_char(c: char) -> Seq<char> {
    if c == '"' {
        seq!['\\', '"']
    } else if c == '\\' {
        seq!['\\', '\\']
    } else if c == '\n' {
        seq!['\\', 'n']
    } else if c == '\r' {
        seq!['\\', 'r']
    } else if c == '\t' {
        seq!['\\', 't']
    } else if c == '\u{0008}' {
        seq!['\\', 'b']
    } else if c == '\u{000C}' {
        seq!['\\', 'f']
    } else {
        seq![c]
    }
}

/// The escaped form of a whole string.
pub open spec fn escape(s: Seq<char>) -> Seq<char>
    decreases s.len(),
{
    if s.len() == 0 {
        Seq::empty()
    } else {
        escape(s.drop_last()) + esc_char(s.last())
    }
}

/// A JSON string literal: quoted, escaped content.
pub open spec fn jstr(s: Seq<char>) -> Seq<char> {
    seq!['"'] + escape(s) + seq!['"']
}

/// A quoted identifier. Canonical identifier text contains nothing that
/// needs escaping, so it is quoted verbatim.
pub open spec fn jid(id: Seq<char>) -> Seq<char> {
    seq!['"'] + id + seq!['"']
}

/// The JSON form of a task type tag.
pub open spec fn type_json(t: ProjectTaskType) -> Seq<char> {
    match t {
        ProjectTaskType::Default => "\"Default\""@,
    }
}

/// The JSON form of a task status tag.
pub open spec fn status_json(s: ProjectTaskStatus) -> Seq<char> {
    match s {
        ProjectTaskStatus::Default => "\"Default\""@,
        ProjectTaskStatus::Todo => "\"Todo\""@,
        ProjectTaskStatus::InProgress => "\"InProgress\""@,
        ProjectTaskStatus::Complete => "\"Complete\""@,
    }
}

/// The JSON record of one task.
pub open spec fn json_task(t: TaskModel) -> Seq<char> {
    "{\"id\":"@ + jid(t.id)
        + ",\"name\":"@ + jstr(t.name)
        + ",\"description\":"@ + jstr(t.description)
        + ",\"type_\":"@ + type_json(t.type_)
        + ",\"status\":"@ + status_json(t.status)
        + "}"@
}

/// One entry of the tasks object: the task's identifier as key, then its
/// record.
pub open spec fn json_task_entry(t: TaskModel) -> Seq<char> {
    jid(t.id) + ":"@ + json_task(t)
}

/// The comma-separated entries of the tasks object.
pub open spec fn json_task_entries(ts: Seq<TaskModel>) -> Seq<char>
    decreases ts.len(),
{
    if ts.len() == 0 {
        Seq::empty()
    } else if ts.len() == 1 {
        json_task_entry(ts[0])
    } else {
        json_task_entries(ts.drop_last()) + ","@ + json_task_entry(ts.last())
    }
}

/// The tasks object of one project.
pub open spec fn json_tasks(ts: Seq<TaskModel>) -> Seq<char> {
    "{"@ + json_task_entries(ts) + "}"@
}

/// The JSON record of one project.
pub open spec fn json_project(p: ProjectModel) -> Seq<char> {
    "{\"id\":"@ + jid(p.id)
        + ",\"name\":"@ + jstr(p.name)
        + ",\"description\":"@ + jstr(p.description)
        + ",\"tasks\":"@ + json_tasks(p.tasks)
        + "}"@
}

/// One entry of the top-level object: the project's identifier as key,
/// then its record.
pub open spec fn json_project_entry(p: ProjectModel) -> Seq<char> {
    jid(p.id) + ":"@ + json_project(p)
}

/// The comma-separated entries of the top-level object.
pub open spec fn json_project_entries(s: Seq<ProjectModel>) -> Seq<char>
    decreases s.len(),
{
    if s.len() == 0 {
        Seq::empty()
    } else if s.len() == 1 {
        json_project_entry(s[0])
    } else {
        json_project_entries(s.drop_last()) + ","@ + json_project_entry(s.last())
    }
}

/// The canonical JSON rendering of the whole collection.
pub open spec fn json_data(s: Seq<ProjectModel>) -> Seq<char> {
    "{"@ + json_project_entries(s) + "}"@
}

// ---------------------------------------------------------------------
// Small concatenation facts

/// Law: escaping one more character appends that character's escape.
pub proof fn lemma_escape_push(s: Seq<char>, c: char)
    ensures
        escape(s.push(c)) == escape(s) + esc_char(c),
{
    assert(s.push(c).drop_last() =~= s);
    assert(s.push(c).last() == c);
}

/// Law: one more task entry extends the entry list, with a comma once the
/// list is nonempty.
pub proof fn lemma_task_entries_push(ts: Seq<TaskModel>, t: TaskModel)
    ensures
        json_task_entries(ts.push(t)) == if ts.len() == 0 {
            json_task_entry(t)
        } else {
            json_task_entries(ts) + ","@ + json_task_entry(t)
        },
{
    assert(ts.push(t).drop_last() =~= ts);
    assert(ts.push(t).last() == t);
}

/// Law: one more project entry extends the entry list, with a comma once
/// the list is nonempty.
pub proof fn lemma_project_entries_push(s: Seq<ProjectModel>, p: ProjectModel)
    ensures
        json_project_entries(s.push(p)) == if s.len() == 0 {
            json_project_entry(p)
        } else {
            json_project_entries(s) + ","@ + json_project_entry(p)
        },
{
    assert(s.push(p).drop_last() =~= s);
    assert(s.push(p).last() == p);
}

// ---------------------------------------------------------------------
// The canonical rendering determines the value: each layer of the format
// can be cancelled from the front of a character stream, so two equal
// renderings come from equal values.

/// Is `c` a character the escaping replaces?
pub open spec fn esc_special(c: char) -> bool {
    c == '"' || c == '\\' || c == '\n' || c == '\r' || c == '\t'
        || c == '\u{0008}' || c == '\u{000C}'
}

/// The shape of one escaped character: one or two characters, never
/// opening with a quote, opening with a backslash exactly for the
/// characters the escaping replaces.
proof fn lemma_esc_char_shape(c: char)
    ensures
        1 <= esc_char(c).len() <= 2,
        esc_char(c)[0] != '"',
        esc_special(c) <==> esc_char(c)[0] == '\\',
        esc_special(c) ==> esc_char(c).len() == 2,
        !esc_special(c) ==> esc_char(c) == seq![c],
{
}

/// Two equal concatenations with equally long heads have equal parts.
proof fn lemma_concat_cancel(a1: Seq<char>, b1: Seq<char>, a2: Seq<char>, b2: Seq<char>)
    requires
        a1 + b1 == a2 + b2,
        a1.len() == a2.len(),
    ensures
        a1 == a2,
        b1 == b2,
{
    assert forall|i: int| 0 <= i < a1.len() implies a1[i] == a2[i] by {
        assert((a1 + b1)[i] == a1[i]);
        assert((a2 + b2)[i] == a2[i]);
    }
    assert(a1 =~= a2);
    assert((a1 + b1).len() == a1.len() + b1.len());
    assert((a2 + b2).len() == a2.len() + b2.len());
    assert(b1.len() == b2.len());
    assert forall|i: int| 0 <= i < b1.len() implies b1[i] == b2[i] by {
        assert((a1 + b1)[a1.len() + i] == b1[i]);
        assert((a2 + b2)[a2.len() + i] == b2[i]);
    }
    assert(b1 =~= b2);
}

/// Cancelling an identical head.
proof fn lemma_lit_cancel(l: Seq<char>, b1: Seq<char>, b2: Seq<char>)
    requires
        l + b1 == l + b2,
    ensures
        b1 == b2,
{
    lemma_concat_cancel(l, b1, l, b2);
}

/// The escaping read from the front: the first character's escape, then
/// the rest.
proof fn lemma_escape_front(s: Seq<char>)
    requires
        s.len() > 0,
    ensures
        escape(s) == esc_char(s[0]) + escape(s.skip(1)),
    decreases s.len(),
{
    if s.len() == 1 {
        assert(s.drop_last() =~= Seq::<char>::empty());
        assert(s.skip(1) =~= Seq::<char>::empty());
        assert(escape(s) =~= esc_char(s[0]) + escape(s.skip(1)));
    } else {
        lemma_escape_front(s.drop_last());
        assert(s.drop_last()[0] == s[0]);
        assert(s.drop_last().skip(1) =~= s.skip(1).drop_last());
        assert(s.skip(1).last() == s.last());
        assert(escape(s.skip(1)) == escape(s.skip(1).drop_last()) + esc_char(s.skip(1).last()));
        assert(escape(s) =~= esc_char(s[0]) + escape(s.skip(1)));
    }
}

/// An escaped body followed by a closing quote is read off unambiguously:
/// equal streams mean equal strings and equal remainders.
proof fn lemma_escape_quote_cancel(s1: Seq<char>, b1: Seq<char>, s2: Seq<char>, b2: Seq<char>)
    requires
        escape(s1) + seq!['"'] + b1 == escape(s2) + seq!['"'] + b2,
    ensures
        s1 == s2,
        b1 == b2,
    decreases s1.len(),
{
    let l = escape(s1) + seq!['"'] + b1;
    let r = escape(s2) + seq!['"'] + b2;
    if s1.len() == 0 && s2.len() == 0 {
        assert(l =~= seq!['"'] + b1);
        assert(r =~= seq!['"'] + b2);
        lemma_lit_cancel(seq!['"'], b1, b2);
        assert(s1 =~= s2);
    } else if s1.len() == 0 {
        lemma_escape_front(s2);
        lemma_esc_char_shape(s2[0]);
        assert(l[0] == '"');
        assert(r[0] == esc_char(s2[0])[0]);
        assert(false);
    } else if s2.len() == 0 {
        lemma_escape_front(s1);
        lemma_esc_char_shape(s1[0]);
        assert(r[0] == '"');
        assert(l[0] == esc_char(s1[0])[0]);
        assert(false);
    } else {
        let h1 = s1[0];
        let h2 = s2[0];
        lemma_escape_front(s1);
        lemma_escape_front(s2);
        lemma_esc_char_shape(h1);
        lemma_esc_char_shape(h2);
        assert(l[0] == esc_char(h1)[0]);
        assert(r[0] == esc_char(h2)[0]);
        if esc_special(h1) {
            assert(esc_special(h2));
            assert(l[1] == esc_char(h1)[1]);
            assert(r[1] == esc_char(h2)[1]);
            assert(h1 == h2);
        } else {
            assert(!esc_special(h2));
            assert(h1 == h2);
        }
        assert(l =~= esc_char(h1) + (escape(s1.skip(1)) + seq!['"'] + b1));
        assert(r =~= esc_char(h2) + (escape(s2.skip(1)) + seq!['"'] + b2));
        lemma_concat_cancel(
            esc_char(h1),
            escape(s1.skip(1)) + seq!['"'] + b1,
            esc_char(h2),
            escape(s2.skip(1)) + seq!['"'] + b2,
        );
        lemma_escape_quote_cancel(s1.skip(1), b1, s2.skip(1), b2);
        assert forall|i: int| 0 <= i < s1.len() implies s1[i] == s2[i] by {
            if i > 0 {
                assert(s1.skip(1)[i - 1] == s1[i]);
                assert(s2.skip(1)[i - 1] == s2[i]);
            }
        }
        assert(s1 =~= s2);
    }
}

/// A quoted string is read off unambiguously.
proof fn lemma_jstr_cancel(s1: Seq<char>, b1: Seq<char>, s2: Seq<char>, b2: Seq<char>)
    requires
        jstr(s1) + b1 == jstr(s2) + b2,
    ensures
        s1 == s2,
        b1 == b2,
{
    assert(jstr(s1) + b1 =~= seq!['"'] + (escape(s1) + seq!['"'] + b1));
    assert(jstr(s2) + b2 =~= seq!['"'] + (escape(s2) + seq!['"'] + b2));
    lemma_lit_cancel(seq!['"'], escape(s1) + seq!['"'] + b1, escape(s2) + seq!['"'] + b2);
    lemma_escape_quote_cancel(s1, b1, s2, b2);
}

/// A quoted canonical identifier is read off unambiguously: its length
/// is fixed.
proof fn lemma_jid_cancel(id1: Seq<char>, b1: Seq<char>, id2: Seq<char>, b2: Seq<char>)
    requires
        canonical_id(id1),
        canonical_id(id2),
        jid(id1) + b1 == jid(id2) + b2,
    ensures
        id1 == id2,
        b1 == b2,
{
    lemma_concat_cancel(jid(id1), b1, jid(id2), b2);
    assert forall|i: int| 0 <= i < id1.len() implies id1[i] == id2[i] by {
        assert(jid(id1)[1 + i] == id1[i]);
        assert(jid(id2)[1 + i] == id2[i]);
    }
    assert(id1 =~= id2);
}

/// A status tag is read off unambiguously: the four labels differ in
/// their first letter.
proof fn lemma_status_cancel(x1: ProjectTaskStatus, b1: Seq<char>, x2: ProjectTaskStatus, b2: Seq<char>)
    requires
        status_json(x1) + b1 == status_json(x2) + b2,
    ensures
        x1 == x2,
        b1 == b2,
{
    reveal_strlit("\"Default\"");
    reveal_strlit("\"Todo\"");
    reveal_strlit("\"InProgress\"");
    reveal_strlit("\"Complete\"");
    assert((status_json(x1) + b1)[1] == status_json(x1)[1]);
    assert((status_json(x2) + b2)[1] == status_json(x2)[1]);
    assert(x1 == x2);
    lemma_lit_cancel(status_json(x1), b1, b2);
}

/// Equal concatenations re-associate: a head of two pieces can be split.
proof fn lemma_assoc(x: Seq<char>, y: Seq<char>, z: Seq<char>)
    ensures
        (x + y) + z == x + (y + z),
{
    assert((x + y) + z =~= x + (y + z));
}

/// A tasks-object entry is read off unambiguously.
#[verifier::rlimit(100)]
proof fn lemma_task_entry_cancel(t1: TaskModel, b1: Seq<char>, t2: TaskModel, b2: Seq<char>)
    requires
        task_wf(t1),
        task_wf(t2),
        json_task_entry(t1) + b1 == json_task_entry(t2) + b2,
    ensures
        t1 == t2,
        b1 == b2,
{
    let u0_1 = "}"@ + b1;
    let u1_1 = status_json(t1.status) + u0_1;
    let u2_1 = ",\"status\":"@ + u1_1;
    let u3_1 = type_json(t1.type_) + u2_1;
    let u4_1 = ",\"type_\":"@ + u3_1;
    let u5_1 = jstr(t1.description) + u4_1;
    let u6_1 = ",\"description\":"@ + u5_1;
    let u7_1 = jstr(t1.name) + u6_1;
    let u8_1 = ",\"name\":"@ + u7_1;
    let u9_1 = jid(t1.id) + u8_1;
    let u0_2 = "}"@ + b2;
    let u1_2 = status_json(t2.status) + u0_2;
    let u2_2 = ",\"status\":"@ + u1_2;
    let u3_2 = type_json(t2.type_) + u2_2;
    let u4_2 = ",\"type_\":"@ + u3_2;
    let u5_2 = jstr(t2.description) + u4_2;
    let u6_2 = ",\"description\":"@ + u5_2;
    let u7_2 = jstr(t2.name) + u6_2;
    let u8_2 = ",\"name\":"@ + u7_2;
    let u9_2 = jid(t2.id) + u8_2;

    let a0_1 = "{\"id\":"@;
    let a1_1 = a0_1 + jid(t1.id);
    let a2_1 = a1_1 + ",\"name\":"@;
    let a3_1 = a2_1 + jstr(t1.name);
    let a4_1 = a3_1 + ",\"description\":"@;
    let a5_1 = a4_1 + jstr(t1.description);
    let a6_1 = a5_1 + ",\"type_\":"@;
    let a7_1 = a6_1 + type_json(t1.type_);
    let a8_1 = a7_1 + ",\"status\":"@;
    let a9_1 = a8_1 + status_json(t1.status);
    assert(json_task(t1) == a9_1 + "}"@);
    lemma_assoc(a9_1, "}"@, b1);
    lemma_assoc(a8_1, status_json(t1.status), u0_1);
    lemma_assoc(a7_1, ",\"status\":"@, u1_1);
    lemma_assoc(a6_1, type_json(t1.type_), u2_1);
    lemma_assoc(a5_1, ",\"type_\":"@, u3_1);
    lemma_assoc(a4_1, jstr(t1.description), u4_1);
    lemma_assoc(a3_1, ",\"description\":"@, u5_1);
    lemma_assoc(a2_1, jstr(t1.name), u6_1);
    lemma_assoc(a1_1, ",\"name\":"@, u7_1);
    lemma_assoc(a0_1, jid(t1.id), u8_1);
    assert(json_task(t1) + b1 == a0_1 + u9_1);
    let a0_2 = "{\"id\":"@;
    let a1_2 = a0_2 + jid(t2.id);
    let a2_2 = a1_2 + ",\"name\":"@;
    let a3_2 = a2_2 + jstr(t2.name);
    let a4_2 = a3_2 + ",\"description\":"@;
    let a5_2 = a4_2 + jstr(t2.description);
    let a6_2 = a5_2 + ",\"type_\":"@;
    let a7_2 = a6_2 + type_json(t2.type_);
    let a8_2 = a7_2 + ",\"status\":"@;
    let a9_2 = a8_2 + status_json(t2.status);
    assert(json_task(t2) == a9_2 + "}"@);
    lemma_assoc(a9_2, "}"@, b2);
    lemma_assoc(a8_2, status_json(t2.status), u0_2);
    lemma_assoc(a7_2, ",\"status\":"@, u1_2);
    lemma_assoc(a6_2, type_json(t2.type_), u2_2);
    lemma_assoc(a5_2, ",\"type_\":"@, u3_2);
    lemma_assoc(a4_2, jstr(t2.description), u4_2);
    lemma_assoc(a3_2, ",\"description\":"@, u5_2);
    lemma_assoc(a2_2, jstr(t2.name), u6_2);
    lemma_assoc(a1_2, ",\"name\":"@, u7_2);
    lemma_assoc(a0_2, jid(t2.id), u8_2);
    assert(json_task(t2) + b2 == a0_2 + u9_2);

    lemma_assoc(jid(t1.id) + ":"@, json_task(t1), b1);
    lemma_assoc(jid(t1.id), ":"@, json_task(t1) + b1);
    lemma_assoc(jid(t2.id) + ":"@, json_task(t2), b2);
    lemma_assoc(jid(t2.id), ":"@, json_task(t2) + b2);
    assert(json_task_entry(t1) + b1 == jid(t1.id) + (":"@ + (json_task(t1) + b1)));
    assert(json_task_entry(t2) + b2 == jid(t2.id) + (":"@ + (json_task(t2) + b2)));
    lemma_jid_cancel(t1.id, ":"@ + (json_task(t1) + b1), t2.id, ":"@ + (json_task(t2) + b2));
    lemma_lit_cancel(":"@, json_task(t1) + b1, json_task(t2) + b2);
    lemma_lit_cancel(a0_1, u9_1, u9_2);
    lemma_jid_cancel(t1.id, u8_1, t2.id, u8_2);
    lemma_lit_cancel(",\"name\":"@, u7_1, u7_2);
    lemma_jstr_cancel(t1.name, u6_1, t2.name, u6_2);
    lemma_lit_cancel(",\"description\":"@, u5_1, u5_2);
    lemma_jstr_cancel(t1.description, u4_1, t2.description, u4_2);
    lemma_lit_cancel(",\"type_\":"@, u3_1, u3_2);
    match t1.type_ {
        ProjectTaskType::Default => {},
    }
    match t2.type_ {
        ProjectTaskType::Default => {},
    }
    assert(t1.type_ == t2.type_);
    lemma_lit_cancel(type_json(t1.type_), u2_1, u2_2);
    lemma_lit_cancel(",\"status\":"@, u1_1, u1_2);
    lemma_status_cancel(t1.status, u0_1, t2.status, u0_2);
    lemma_lit_cancel("}"@, b1, b2);
    assert(t1 =~= t2);
}

/// The task entry list read from the front: the first entry, then the
/// rest behind a comma.
proof fn lemma_task_entries_front(ts: Seq<TaskModel>)
    requires
        ts.len() > 0,
    ensures
        json_task_entries(ts) == json_task_entry(ts[0]) + if ts.len() == 1 {
            Seq::<char>::empty()
        } else {
            ","@ + json_task_entries(ts.skip(1))
        },
    decreases ts.len(),
{
    if ts.len() == 1 {
        assert(json_task_entries(ts) =~= json_task_entry(ts[0]) + Seq::<char>::empty());
    } else {
        lemma_task_entries_front(ts.drop_last());
        assert(ts.drop_last()[0] == ts[0]);
        assert(ts.drop_last().skip(1) =~= ts.skip(1).drop_last());
        assert(ts.skip(1).last() == ts.last());
        if ts.len() == 2 {
            assert(ts.skip(1) =~= seq![ts[1]]);
            assert(json_task_entries(ts.skip(1)) == json_task_entry(ts[1]));
            assert(json_task_entries(ts) =~= json_task_entry(ts[0]) + (","@ + json_task_entries(ts.skip(1))));
        } else {
            assert(json_task_entries(ts.skip(1)) == json_task_entries(ts.skip(1).drop_last())
                + ","@ + json_task_entry(ts.skip(1).last()));
            assert(json_task_entries(ts) =~= json_task_entry(ts[0]) + (","@ + json_task_entries(ts.skip(1))));
        }
    }
}

/// A task entry list with its closing brace is read off unambiguously.
#[verifier::rlimit(100)]
proof fn lemma_task_entries_cancel(ts1: Seq<TaskModel>, b1: Seq<char>, ts2: Seq<TaskModel>, b2: Seq<char>)
    requires
        forall|i: int| 0 <= i < ts1.len() ==> task_wf(#[trigger] ts1[i]),
        forall|i: int| 0 <= i < ts2.len() ==> task_wf(#[trigger] ts2[i]),
        json_task_entries(ts1) + seq!['}'] + b1 == json_task_entries(ts2) + seq!['}'] + b2,
    ensures
        ts1 == ts2,
        b1 == b2,
    decreases ts1.len(),
{
    reveal_strlit(",");
    let l = json_task_entries(ts1) + seq!['}'] + b1;
    let r = json_task_entries(ts2) + seq!['}'] + b2;
    if ts1.len() == 0 && ts2.len() == 0 {
        assert(l =~= seq!['}'] + b1);
        assert(r =~= seq!['}'] + b2);
        lemma_lit_cancel(seq!['}'], b1, b2);
        assert(ts1 =~= ts2);
    } else if ts1.len() == 0 {
        lemma_task_entries_front(ts2);
        assert(l[0] == '}');
        assert(json_task_entries(ts2)[0] == json_task_entry(ts2[0])[0]);
        assert(json_task_entry(ts2[0])[0] == '"');
        assert(r[0] == '"');
        assert(false);
    } else if ts2.len() == 0 {
        lemma_task_entries_front(ts1);
        assert(r[0] == '}');
        assert(json_task_entries(ts1)[0] == json_task_entry(ts1[0])[0]);
        assert(json_task_entry(ts1[0])[0] == '"');
        assert(l[0] == '"');
        assert(false);
    } else {
        lemma_task_entries_front(ts1);
        lemma_task_entries_front(ts2);
        let tail1 = if ts1.len() == 1 { Seq::<char>::empty() } else { ","@ + json_task_entries(ts1.skip(1)) };
        let tail2 = if ts2.len() == 1 { Seq::<char>::empty() } else { ","@ + json_task_entries(ts2.skip(1)) };
        assert(l =~= json_task_entry(ts1[0]) + (tail1 + seq!['}'] + b1));
        assert(r =~= json_task_entry(ts2[0]) + (tail2 + seq!['}'] + b2));
        lemma_task_entry_cancel(ts1[0], tail1 + seq!['}'] + b1, ts2[0], tail2 + seq!['}'] + b2);
        if ts1.len() == 1 && ts2.len() == 1 {
            assert(tail1 + seq!['}'] + b1 =~= seq!['}'] + b1);
            assert(tail2 + seq!['}'] + b2 =~= seq!['}'] + b2);
            lemma_lit_cancel(seq!['}'], b1, b2);
            assert(ts1 =~= ts2);
        } else if ts1.len() == 1 {
            assert((tail1 + seq!['}'] + b1)[0] == '}');
            assert((tail2 + seq!['}'] + b2)[0] == ',');
            assert(false);
        } else if ts2.len() == 1 {
            assert((tail1 + seq!['}'] + b1)[0] == ',');
            assert((tail2 + seq!['}'] + b2)[0] == '}');
            assert(false);
        } else {
            assert(tail1 + seq!['}'] + b1 =~= ","@ + (json_task_entries(ts1.skip(1)) + seq!['}'] + b1));
            assert(tail2 + seq!['}'] + b2 =~= ","@ + (json_task_entries(ts2.skip(1)) + seq!['}'] + b2));
            lemma_lit_cancel(
                ","@,
                json_task_entries(ts1.skip(1)) + seq!['}'] + b1,
                json_task_entries(ts2.skip(1)) + seq!['}'] + b2,
            );
            lemma_task_entries_cancel(ts1.skip(1), b1, ts2.skip(1), b2);
            assert forall|i: int| 0 <= i < ts1.len() implies ts1[i] == ts2[i] by {
                if i > 0 {
                    assert(ts1.skip(1)[i - 1] == ts1[i]);
                    assert(ts2.skip(1)[i - 1] == ts2[i]);
                }
            }
            assert(ts1 =~= ts2);
        }
    }
}

/// A top-level entry is read off unambiguously.
#[verifier::rlimit(100)]
proof fn lemma_project_entry_cancel(p1: ProjectModel, b1: Seq<char>, p2: ProjectModel, b2: Seq<char>)
    requires
        project_wf(p1),
        project_wf(p2),
        json_project_entry(p1) + b1 == json_project_entry(p2) + b2,
    ensures
        p1 == p2,
        b1 == b2,
{
    reveal_strlit("{");
    reveal_strlit("}");
    assert("}"@ =~= seq!['}']);
    let u0_1 = "}"@ + b1;
    let u1_1 = seq!['}'] + u0_1;
    let u2_1 = json_task_entries(p1.tasks) + u1_1;
    let u3_1 = "{"@ + u2_1;
    let u4_1 = ",\"tasks\":"@ + u3_1;
    let u5_1 = jstr(p1.description) + u4_1;
    let u6_1 = ",\"description\":"@ + u5_1;
    let u7_1 = jstr(p1.name) + u6_1;
    let u8_1 = ",\"name\":"@ + u7_1;
    let u9_1 = jid(p1.id) + u8_1;
    let u0_2 = "}"@ + b2;
    let u1_2 = seq!['}'] + u0_2;
    let u2_2 = json_task_entries(p2.tasks) + u1_2;
    let u3_2 = "{"@ + u2_2;
    let u4_2 = ",\"tasks\":"@ + u3_2;
    let u5_2 = jstr(p2.description) + u4_2;
    let u6_2 = ",\"description\":"@ + u5_2;
    let u7_2 = jstr(p2.name) + u6_2;
    let u8_2 = ",\"name\":"@ + u7_2;
    let u9_2 = jid(p2.id) + u8_2;

    let a0_1 = "{\"id\":"@;
    let a1_1 = a0_1 + jid(p1.id);
    let a2_1 = a1_1 + ",\"name\":"@;
    let a3_1 = a2_1 + jstr(p1.name);
    let a4_1 = a3_1 + ",\"description\":"@;
    let a5_1 = a4_1 + jstr(p1.description);
    let a6_1 = a5_1 + ",\"tasks\":"@;
    let a7_1 = a6_1 + ("{"@ + json_task_entries(p1.tasks) + "}"@);
    assert(json_project(p1) == a7_1 + "}"@);
    lemma_assoc(a7_1, "}"@, b1);
    lemma_assoc(a6_1, "{"@ + json_task_entries(p1.tasks) + "}"@, u0_1);
    assert(("{"@ + json_task_entries(p1.tasks) + "}"@) + u0_1 =~= u3_1);
    lemma_assoc(a5_1, ",\"tasks\":"@, u3_1);
    lemma_assoc(a4_1, jstr(p1.description), u4_1);
    lemma_assoc(a3_1, ",\"description\":"@, u5_1);
    lemma_assoc(a2_1, jstr(p1.name), u6_1);
    lemma_assoc(a1_1, ",\"name\":"@, u7_1);
    lemma_assoc(a0_1, jid(p1.id), u8_1);
    assert(json_project(p1) + b1 == a0_1 + u9_1);
    let a0_2 = "{\"id\":"@;
    let a1_2 = a0_2 + jid(p2.id);
    let a2_2 = a1_2 + ",\"name\":"@;
    let a3_2 = a2_2 + jstr(p2.name);
    let a4_2 = a3_2 + ",\"description\":"@;
    let a5_2 = a4_2 + jstr(p2.description);
    let a6_2 = a5_2 + ",\"tasks\":"@;
    let a7_2 = a6_2 + ("{"@ + json_task_entries(p2.tasks) + "}"@);
    assert(json_project(p2) == a7_2 + "}"@);
    lemma_assoc(a7_2, "}"@, b2);
    lemma_assoc(a6_2, "{"@ + json_task_entries(p2.tasks) + "}"@, u0_2);
    assert(("{"@ + json_task_entries(p2.tasks) + "}"@) + u0_2 =~= u3_2);
    lemma_assoc(a5_2, ",\"tasks\":"@, u3_2);
    lemma_assoc(a4_2, jstr(p2.description), u4_2);
    lemma_assoc(a3_2, ",\"description\":"@, u5_2);
    lemma_assoc(a2_2, jstr(p2.name), u6_2);
    lemma_assoc(a1_2, ",\"name\":"@, u7_2);
    lemma_assoc(a0_2, jid(p2.id), u8_2);
    assert(json_project(p2) + b2 == a0_2 + u9_2);

    lemma_assoc(jid(p1.id) + ":"@, json_project(p1), b1);
    lemma_assoc(jid(p1.id), ":"@, json_project(p1) + b1);
    lemma_assoc(jid(p2.id) + ":"@, json_project(p2), b2);
    lemma_assoc(jid(p2.id), ":"@, json_project(p2) + b2);
    assert(json_project_entry(p1) + b1 == jid(p1.id) + (":"@ + (json_project(p1) + b1)));
    assert(json_project_entry(p2) + b2 == jid(p2.id) + (":"@ + (json_project(p2) + b2)));
    lemma_jid_cancel(p1.id, ":"@ + (json_project(p1) + b1), p2.id, ":"@ + (json_project(p2) + b2));
    lemma_lit_cancel(":"@, json_project(p1) + b1, json_project(p2) + b2);
    lemma_lit_cancel(a0_1, u9_1, u9_2);
    lemma_jid_cancel(p1.id, u8_1, p2.id, u8_2);
    lemma_lit_cancel(",\"name\":"@, u7_1, u7_2);
    lemma_jstr_cancel(p1.name, u6_1, p2.name, u6_2);
    lemma_lit_cancel(",\"description\":"@, u5_1, u5_2);
    lemma_jstr_cancel(p1.description, u4_1, p2.description, u4_2);
    lemma_lit_cancel(",\"tasks\":"@, u3_1, u3_2);
    lemma_lit_cancel("{"@, u2_1, u2_2);
    assert(u2_1 =~= json_task_entries(p1.tasks) + seq!['}'] + u0_1);
    assert(u2_2 =~= json_task_entries(p2.tasks) + seq!['}'] + u0_2);
    lemma_task_entries_cancel(p1.tasks, u0_1, p2.tasks, u0_2);
    lemma_lit_cancel("}"@, b1, b2);
    assert(p1 =~= p2);
}

/// The top-level entry list read from the front.
#[verifier::rlimit(100)]
proof fn lemma_project_entries_front(s: Seq<ProjectModel>)
    requires
        s.len() > 0,
    ensures
        json_project_entries(s) == json_project_entry(s[0]) + if s.len() == 1 {
            Seq::<char>::empty()
        } else {
            ","@ + json_project_entries(s.skip(1))
        },
    decreases s.len(),
{
    if s.len() == 1 {
        assert(json_project_entries(s) =~= json_project_entry(s[0]) + Seq::<char>::empty());
    } else {
        lemma_project_entries_front(s.drop_last());
        assert(s.drop_last()[0] == s[0]);
        assert(s.drop_last().skip(1) =~= s.skip(1).drop_last());
        assert(s.skip(1).last() == s.last());
        if s.len() == 2 {
            assert(s.skip(1) =~= seq![s[1]]);
            assert(json_project_entries(s.skip(1)) == json_project_entry(s[1]));
            assert(json_project_entries(s) =~= json_project_entry(s[0]) + (","@ + json_project_entries(s.skip(1))));
        } else {
            assert(json_project_entries(s.skip(1)) == json_project_entries(s.skip(1).drop_last())
                + ","@ + json_project_entry(s.skip(1).last()));
            assert(json_project_entries(s) =~= json_project_entry(s[0]) + (","@ + json_project_entries(s.skip(1))));
        }
    }
}

/// A top-level entry list with its closing brace is read off
/// unambiguously.
#[verifier::rlimit(100)]
proof fn lemma_project_entries_cancel(s1: Seq<ProjectModel>, b1: Seq<char>, s2: Seq<ProjectModel>, b2: Seq<char>)
    requires
        forall|i: int| 0 <= i < s1.len() ==> project_wf(#[trigger] s1[i]),
        forall|i: int| 0 <= i < s2.len() ==> project_wf(#[trigger] s2[i]),
        json_project_entries(s1) + seq!['}'] + b1 == json_project_entries(s2) + seq!['}'] + b2,
    ensures
        s1 == s2,
        b1 == b2,
    decreases s1.len(),
{
    reveal_strlit(",");
    let l = json_project_entries(s1) + seq!['}'] + b1;
    let r = json_project_entries(s2) + seq!['}'] + b2;
    if s1.len() == 0 && s2.len() == 0 {
        assert(l =~= seq!['}'] + b1);
        assert(r =~= seq!['}'] + b2);
        lemma_lit_cancel(seq!['}'], b1, b2);
        assert(s1 =~= s2);
    } else if s1.len() == 0 {
        lemma_project_entries_front(s2);
        assert(l[0] == '}');
        assert(json_project_entries(s2)[0] == json_project_entry(s2[0])[0]);
        assert(json_project_entry(s2[0])[0] == '"');
        assert(r[0] == '"');
        assert(false);
    } else if s2.len() == 0 {
        lemma_project_entries_front(s1);
        assert(r[0] == '}');
        assert(json_project_entries(s1)[0] == json_project_entry(s1[0])[0]);
        assert(json_project_entry(s1[0])[0] == '"');
        assert(l[0] == '"');
        assert(false);
    } else {
        lemma_project_entries_front(s1);
        lemma_project_entries_front(s2);
        let tail1 = if s1.len() == 1 { Seq::<char>::empty() } else { ","@ + json_project_entries(s1.skip(1)) };
        let tail2 = if s2.len() == 1 { Seq::<char>::empty() } else { ","@ + json_project_entries(s2.skip(1)) };
        let w1 = seq!['}'] + b1;
        let w2 = seq!['}'] + b2;
        lemma_assoc(json_project_entries(s1), seq!['}'], b1);
        lemma_assoc(json_project_entries(s2), seq!['}'], b2);
        lemma_assoc(json_project_entry(s1[0]), tail1, w1);
        lemma_assoc(json_project_entry(s2[0]), tail2, w2);
        assert(l == json_project_entry(s1[0]) + (tail1 + w1));
        assert(r == json_project_entry(s2[0]) + (tail2 + w2));
        lemma_project_entry_cancel(s1[0], tail1 + w1, s2[0], tail2 + w2);
        if s1.len() == 1 && s2.len() == 1 {
            assert(tail1 + w1 =~= w1);
            assert(tail2 + w2 =~= w2);
            lemma_lit_cancel(seq!['}'], b1, b2);
            assert(s1 =~= s2);
        } else if s1.len() == 1 {
            assert((tail1 + w1)[0] == '}');
            assert((tail2 + w2)[0] == ',');
            assert(false);
        } else if s2.len() == 1 {
            assert((tail1 + w1)[0] == ',');
            assert((tail2 + w2)[0] == '}');
            assert(false);
        } else {
            lemma_assoc(","@, json_project_entries(s1.skip(1)), w1);
            lemma_assoc(","@, json_project_entries(s2.skip(1)), w2);
            lemma_lit_cancel(
                ","@,
                json_project_entries(s1.skip(1)) + w1,
                json_project_entries(s2.skip(1)) + w2,
            );
            lemma_assoc(json_project_entries(s1.skip(1)), seq!['}'], b1);
            lemma_assoc(json_project_entries(s2.skip(1)), seq!['}'], b2);
            lemma_project_entries_cancel(s1.skip(1), b1, s2.skip(1), b2);
            assert forall|i: int| 0 <= i < s1.len() implies s1[i] == s2[i] by {
                if i > 0 {
                    assert(s1.skip(1)[i - 1] == s1[i]);
                    assert(s2.skip(1)[i - 1] == s2[i]);
                }
            }
            assert(s1 =~= s2);
        }
    }
}

/// Law: the canonical rendering is injective on well-formed collections.
/// A file determines the collection it was saved from, so a load after a
/// save can only yield the collection that was saved.
pub proof fn lemma_json_data_injective(d1: Seq<ProjectModel>, d2: Seq<ProjectModel>)
    requires
        data_wf(d1),
        data_wf(d2),
        json_data(d1) == json_data(d2),
    ensures
        d1 == d2,
{
    reveal_strlit("{");
    reveal_strlit("}");
    assert(json_data(d1) =~= "{"@ + (json_project_entries(d1) + seq!['}'] + Seq::<char>::empty()));
    assert(json_data(d2) =~= "{"@ + (json_project_entries(d2) + seq!['}'] + Seq::<char>::empty()));
    lemma_lit_cancel(
        "{"@,
        json_project_entries(d1) + seq!['}'] + Seq::<char>::empty(),
        json_project_entries(d2) + seq!['}'] + Seq::<char>::empty(),
    );
    lemma_project_entries_cancel(d1, Seq::empty(), d2, Seq::empty());
}

// ---------------------------------------------------------------------
// Rendering

fn append_escaped(out: &mut String, s: &str)
    ensures
        final(out)@ == old(out)@ + escape(s@),
{
    let n = s.unicode_len();
    let mut i: usize = 0;
    while i < n
        invariant
            n == s@.len(),
            0 <= i <= n,
            out@ == old(out)@ + escape(s@.take(i as int)),
        decreases n - i,
    {
        let c = s.get_char(i);
        proof {
            assert(s@.take(i as int).push(c) =~= s@.take(i + 1 as int));
            lemma_escape_push(s@.take(i as int), c);
        }
        if c == '"' {
            push_char(out, '\\');
            push_char(out, '"');
        } else if c == '\\' {
            push_char(out, '\\');
            push_char(out, '\\');
        } else if c == '\n' {
            push_char(out, '\\');
            push_char(out, 'n');
        } else if c == '\r' {
            push_char(out, '\\');
            push_char(out, 'r');
        } else if c == '\t' {
            push_char(out, '\\');
            push_char(out, 't');
        } else if c == '\u{0008}' {
            push_char(out, '\\');
            push_char(out, 'b');
        } else if c == '\u{000C}' {
            push_char(out, '\\');
            push_char(out, 'f');
        } else {
            push_char(out, c);
        }
        proof {
            assert(out@ =~= old(out)@ + escape(s@.take(i + 1 as int)));
        }
        i = i + 1;
    }
    proof {
        assert(s@.take(n as int) =~= s@);
    }
}

fn append_jstr(out: &mut String, s: &str)
    ensures
        final(out)@ == old(out)@ + jstr(s@),
{
    push_char(out, '"');
    append_escaped(out, s);
    push_char(out, '"');
    proof {
        assert(out@ =~= old(out)@ + jstr(s@));
    }
}

fn append_jid(out: &mut String, id: &Identifier)
    ensures
        final(out)@ == old(out)@ + jid(id@),
{
    push_char(out, '"');
    out.append(id.as_text());
    push_char(out, '"');
    proof {
        assert(out@ =~= old(out)@ + jid(id@));
    }
}

/// The JSON text of a status tag.
fn status_json_text(s: &ProjectTaskStatus) -> (r: &'static str)
    ensures
        r@ == status_json(*s),
{
    match s {
        ProjectTaskStatus::Default => "\"Default\"",
        ProjectTaskStatus::Todo => "\"Todo\"",
        ProjectTaskStatus::InProgress => "\"InProgress\"",
        ProjectTaskStatus::Complete => "\"Complete\"",
    }
}

fn append_task(out: &mut String, t: &ProjectTask)
    ensures
        final(out)@ == old(out)@ + json_task_entry(t@),
{
    append_jid(out, &t.id);
    out.append(":");
    out.append("{\"id\":");
    append_jid(out, &t.id);
    out.append(",\"name\":");
    append_jstr(out, t.name.as_str());
    out.append(",\"description\":");
    append_jstr(out, t.description.as_str());
    out.append(",\"type_\":");
    out.append("\"Default\"");
    out.append(",\"status\":");
    out.append(status_json_text(&t.status));
    out.append("}");
    proof {
        assert(out@ =~= old(out)@ + json_task_entry(t@));
    }
}

#[verifier::rlimit(60)]
fn append_project(out: &mut String, p: &Project)
    ensures
        final(out)@ == old(out)@ + json_project_entry(p@),
{
    append_jid(out, &p.id);
    out.append(":");
    out.append("{\"id\":");
    append_jid(out, &p.id);
    out.append(",\"name\":");
    append_jstr(out, p.name.as_str());
    out.append(",\"description\":");
    append_jstr(out, p.description.as_str());
    out.append(",\"tasks\":");
    out.append("{");
    let ghost ts = p@.tasks;
    let ghost base = out@;
    proof {
        assert(base + json_task_entries(ts.take(0)) =~= base);
    }
    let n = p.tasks.len();
    let mut i: usize = 0;
    while i < n
        invariant
            n == p.tasks.len(),
            ts == p@.tasks,
            ts.len() == n,
            0 <= i <= n,
            out@ == base + json_task_entries(ts.take(i as int)),
        decreases n - i,
    {
        if i > 0 {
            out.append(",");
        }
        proof {
            assert(p@.tasks[i as int] == p.tasks@[i as int]@);
            assert(ts.take(i as int).push(ts[i as int]) =~= ts.take(i + 1 as int));
            lemma_task_entries_push(ts.take(i as int), ts[i as int]);
        }
        append_task(out, &p.tasks[i]);
        i = i + 1;
    }
    proof {
        assert(ts.take(n as int) =~= ts);
    }
    out.append("}");
    out.append("}");
    proof {
        assert(out@ =~= old(out)@ + json_project_entry(p@));
    }
}

/// Render the whole collection in its canonical JSON form.
#[verifier::rlimit(60)]
pub fn write_data(data: &ProjectData) -> (r: String)
    ensures
        r@ == json_data(data@),
{
    let projects = data.list_projects();
    let ghost s = data@;
    let mut out = String::new();
    out.append("{");
    proof {
        assert("{"@ + json_project_entries(s.take(0)) =~= "{"@);
    }
    let n = projects.len();
    let mut i: usize = 0;
    while i < n
        invariant
            n == projects.len(),
            s == projects@.map_values(|p: Project| p@),
            s == data@,
            s.len() == n,
            0 <= i <= n,
            out@ == "{"@ + json_project_entries(s.take(i as int)),
        decreases n - i,
    {
        if i > 0 {
            out.append(",");
        }
        proof {
            assert(s[i as int] == projects@[i as int]@);
            assert(s.take(i as int).push(s[i as int]) =~= s.take(i + 1 as int));
            lemma_project_entries_push(s.take(i as int), s[i as int]);
        }
        append_project(&mut out, &projects[i]);
        i = i + 1;
    }
    proof {
        assert(s.take(n as int) =~= s);
    }
    out.append("}");
    proof {
        assert(out@ =~= json_data(s));
    }
    out
}

// ---------------------------------------------------------------------
// Reading the canonical form back

pub(crate) fn to_chars(s: &str) -> (v: Vec<char>)
    ensures
        v@ == s@,
{
    let n = s.unicode_len();
    let mut v: Vec<char> = Vec::new();
    let mut i: usize = 0;
    while i < n
        invariant
            n == s@.len(),
            0 <= i <= n,
            v@ == s@.take(i as int),
        decreases n - i,
    {
        v.push(s.get_char(i));
        proof {
            assert(v@ =~= s@.take(i + 1 as int));
        }
        i = i + 1;
    }
    proof {
        assert(s@.take(n as int) =~= s@);
    }
    v
}

/// Match the literal `lit` at position `i` of `v`: succeeds exactly when
/// it stands there.
pub(crate) fn parse_lit(v: &Vec<char>, i: usize, lit: &str) -> (r: Option<usize>)
    requires
        i <= v@.len(),
    ensures
        r matches Some(j) ==> i <= j <= v@.len() && j - i == lit@.len()
            && v@.subrange(i as int, j as int) == lit@,
        r is None ==> !matches_at(v@, i as int, lit@),
{
    let m = lit.unicode_len();
    let n = v.len();
    if n - i < m {
        return None;
    }
    let mut k: usize = 0;
    while k < m
        invariant
            0 <= k <= m,
            m == lit@.len(),
            n == v@.len(),
            i + m <= n,
            forall|t: int| 0 <= t < k ==> v@[i + t] == lit@[t],
        decreases m - k,
    {
        if v[i + k] != lit.get_char(k) {
            proof {
                if matches_at(v@, i as int, lit@) {
                    assert(v@.subrange(i as int, i + lit@.len())[k as int] == v@[i + k]);
                }
            }
            return None;
        }
        k = k + 1;
    }
    proof {
        assert(v@.subrange(i as int, (i + m) as int) =~= lit@);
    }
    Some(i + m)
}

/// Read a quoted canonical identifier at position `i`.
fn parse_jid(v: &Vec<char>, i: usize) -> (r: Option<(Identifier, usize)>)
    requires
        i <= v@.len(),
    ensures
        r matches Some((id, j)) ==> i < j <= v@.len() && j == i + 38
            && canonical_id(id@) && v@.subrange(i as int, j as int) == jid(id@),
{
    let n = v.len();
    if n - i < 38 {
        return None;
    }
    if v[i] != '"' {
        return None;
    }
    let mut out = String::new();
    let mut k: usize = 0;
    while k < 36
        invariant
            n == v@.len(),
            i + 38 <= n,
            0 <= k <= 36,
            out@.len() == k,
            forall|m: int| 0 <= m < k ==> out@[m] == v@[i + 1 + m],
            forall|m: int| 0 <= m < k ==> crate::ids::id_char_ok(out@, m),
            forall|m: int| 0 <= m < k ==> !crate::ids::is_upper_hex(out@[m]),
        decreases 36 - k,
    {
        let c = v[i + 1 + k];
        let u = c as u32;
        if k == 8 || k == 13 || k == 18 || k == 23 {
            if c != '-' {
                return None;
            }
        } else {
            if !((48 <= u && u <= 57) || (97 <= u && u <= 102)) {
                return None;
            }
        }
        let ghost o0 = out@;
        push_char(&mut out, c);
        proof {
            assert forall|m: int| 0 <= m < k + 1 implies crate::ids::id_char_ok(out@, m) by {
                assert(out@[m] == if m < k { o0[m] } else { c });
                if m < k {
                    assert(crate::ids::id_char_ok(o0, m));
                }
            }
            assert forall|m: int| 0 <= m < k + 1 implies !crate::ids::is_upper_hex(out@[m]) by {
                assert(out@[m] == if m < k { o0[m] } else { c });
            }
        }
        k = k + 1;
    }
    if v[i + 37] != '"' {
        return None;
    }
    proof {
        assert(canonical_id(out@));
        assert(v@.subrange(i as int, (i + 38) as int) =~= jid(out@));
    }
    Some((Identifier::from_canonical(out), i + 38))
}

/// Read a JSON string literal at position `i`, undoing the canonical
/// escaping. Content that the renderer would have escaped differently
/// (a raw control character, an unknown escape) is rejected.
fn parse_jstr(v: &Vec<char>, i: usize) -> (r: Option<(String, usize)>)
    requires
        i <= v@.len(),
    ensures
        r matches Some((s, j)) ==> i < j <= v@.len()
            && v@.subrange(i as int, j as int) == jstr(s@),
{
    let n = v.len();
    if i >= n {
        return None;
    }
    if v[i] != '"' {
        return None;
    }
    let mut out = String::new();
    let mut cur: usize = i + 1;
    proof {
        assert(v@.subrange((i + 1) as int, (i + 1) as int) =~= escape(out@));
    }
    loop
        invariant
            n == v@.len(),
            i + 1 <= cur <= n,
            v@[i as int] == '"',
            v@.subrange((i + 1) as int, cur as int) == escape(out@),
        decreases n - cur,
    {
        if cur >= n {
            return None;
        }
        let c = v[cur];
        if c == '"' {
            proof {
                assert(v@.subrange(i as int, (cur + 1) as int) =~= jstr(out@));
            }
            return Some((out, cur + 1));
        } else if c == '\\' {
            if cur + 1 >= n {
                return None;
            }
            let e = v[cur + 1];
            let decoded: char;
            if e == '"' {
                decoded = '"';
            } else if e == '\\' {
                decoded = '\\';
            } else if e == 'n' {
                decoded = '\n';
            } else if e == 'r' {
                decoded = '\r';
            } else if e == 't' {
                decoded = '\t';
            } else if e == 'b' {
                decoded = '\u{0008}';
            } else if e == 'f' {
                decoded = '\u{000C}';
            } else {
                return None;
            }
            proof {
                let o = out@;
                lemma_escape_push(o, decoded);
                assert(esc_char(decoded) =~= seq!['\\', e]);
                assert(v@.subrange((i + 1) as int, (cur + 2) as int) =~= escape(o) + esc_char(decoded));
            }
            push_char(&mut out, decoded);
            cur = cur + 2;
        } else if c == '\n' || c == '\r' || c == '\t' || c == '\u{0008}' || c == '\u{000C}' {
            return None;
        } else {
            proof {
                let o = out@;
                lemma_escape_push(o, c);
                assert(esc_char(c) =~= seq![c]);
                assert(v@.subrange((i + 1) as int, (cur + 1) as int) =~= escape(o) + esc_char(c));
            }
            push_char(&mut out, c);
            cur = cur + 1;
        }
    }
}

/// Read a task type tag at position `i`.
fn parse_type(v: &Vec<char>, i: usize) -> (r: Option<(ProjectTaskType, usize)>)
    requires
        i <= v@.len(),
    ensures
        r matches Some((t, j)) ==> i <= j <= v@.len()
            && v@.subrange(i as int, j as int) == type_json(t),
{
    match parse_lit(v, i, "\"Default\"") {
        Some(j) => Some((ProjectTaskType::Default, j)),
        None => None,
    }
}

/// Read a task status tag at position `i`.
fn parse_status(v: &Vec<char>, i: usize) -> (r: Option<(ProjectTaskStatus, usize)>)
    requires
        i <= v@.len(),
    ensures
        r matches Some((st, j)) ==> i <= j <= v@.len()
            && v@.subrange(i as int, j as int) == status_json(st),
{
    match parse_lit(v, i, "\"Todo\"") {
        Some(j) => {
            return Some((ProjectTaskStatus::Todo, j));
        },
        None => {},
    }
    match parse_lit(v, i, "\"InProgress\"") {
        Some(j) => {
            return Some((ProjectTaskStatus::InProgress, j));
        },
        None => {},
    }
    match parse_lit(v, i, "\"Complete\"") {
        Some(j) => {
            return Some((ProjectTaskStatus::Complete, j));
        },
        None => {},
    }
    match parse_lit(v, i, "\"Default\"") {
        Some(j) => {
            return Some((ProjectTaskStatus::Default, j));
        },
        None => {},
    }
    None
}

/// Read one tasks-object entry (key and task record) at position `i`.
/// The key must equal the record's own `id` field, as the renderer
/// writes it.
#[verifier::rlimit(80)]
fn parse_task_entry(v: &Vec<char>, i: usize) -> (r: Option<(ProjectTask, usize)>)
    requires
        i <= v@.len(),
    ensures
        r matches Some((t, j)) ==> i < j <= v@.len()
            && v@.subrange(i as int, j as int) == json_task_entry(t@)
            && task_wf(t@),
{
    let (key, p1) = match parse_jid(v, i) { Some(x) => x, None => { return None; } };
    let p2 = match parse_lit(v, p1, ":") { Some(x) => x, None => { return None; } };
    let p3 = match parse_lit(v, p2, "{\"id\":") { Some(x) => x, None => { return None; } };
    let (id2, p4) = match parse_jid(v, p3) { Some(x) => x, None => { return None; } };
    if !key.same_as(&id2) {
        return None;
    }
    let p5 = match parse_lit(v, p4, ",\"name\":") { Some(x) => x, None => { return None; } };
    let (name, p6) = match parse_jstr(v, p5) { Some(x) => x, None => { return None; } };
    let p7 = match parse_lit(v, p6, ",\"description\":") { Some(x) => x, None => { return None; } };
    let (description, p8) = match parse_jstr(v, p7) { Some(x) => x, None => { return None; } };
    let p9 = match parse_lit(v, p8, ",\"type_\":") { Some(x) => x, None => { return None; } };
    let (type_, p10) = match parse_type(v, p9) { Some(x) => x, None => { return None; } };
    let p11 = match parse_lit(v, p10, ",\"status\":") { Some(x) => x, None => { return None; } };
    let (status, p12) = match parse_status(v, p11) { Some(x) => x, None => { return None; } };
    let p13 = match parse_lit(v, p12, "}") { Some(x) => x, None => { return None; } };
    let t = ProjectTask { id: id2, name, description, type_, status };
    proof {
        assert(v@.subrange(i as int, p2 as int)
            =~= v@.subrange(i as int, p1 as int) + v@.subrange(p1 as int, p2 as int));
        assert(v@.subrange(i as int, p3 as int)
            =~= v@.subrange(i as int, p2 as int) + v@.subrange(p2 as int, p3 as int));
        assert(v@.subrange(i as int, p4 as int)
            =~= v@.subrange(i as int, p3 as int) + v@.subrange(p3 as int, p4 as int));
        assert(v@.subrange(i as int, p5 as int)
            =~= v@.subrange(i as int, p4 as int) + v@.subrange(p4 as int, p5 as int));
        assert(v@.subrange(i as int, p6 as int)
            =~= v@.subrange(i as int, p5 as int) + v@.subrange(p5 as int, p6 as int));
        assert(v@.subrange(i as int, p7 as int)
            =~= v@.subrange(i as int, p6 as int) + v@.subrange(p6 as int, p7 as int));
        assert(v@.subrange(i as int, p8 as int)
            =~= v@.subrange(i as int, p7 as int) + v@.subrange(p7 as int, p8 as int));
        assert(v@.subrange(i as int, p9 as int)
            =~= v@.subrange(i as int, p8 as int) + v@.subrange(p8 as int, p9 as int));
        assert(v@.subrange(i as int, p10 as int)
            =~= v@.subrange(i as int, p9 as int) + v@.subrange(p9 as int, p10 as int));
        assert(v@.subrange(i as int, p11 as int)
            =~= v@.subrange(i as int, p10 as int) + v@.subrange(p10 as int, p11 as int));
        assert(v@.subrange(i as int, p12 as int)
            =~= v@.subrange(i as int, p11 as int) + v@.subrange(p11 as int, p12 as int));
        assert(v@.subrange(i as int, p13 as int)
            =~= v@.subrange(i as int, p12 as int) + v@.subrange(p12 as int, p13 as int));
        assert(v@.subrange(i as int, p13 as int) =~= json_task_entry(t@));
    }
    Some((t, p13))
}

/// Does any task of `tasks` carry the identifier `id`?
fn vec_has_tid(tasks: &Vec<ProjectTask>, id: &Identifier) -> (r: bool)
    ensures
        r == has_tid(tasks@.map_values(|t: ProjectTask| t@), id@),
{
    let n = tasks.len();
    let mut k: usize = 0;
    while k < n
        invariant
            n == tasks.len(),
            0 <= k <= n,
            forall|m: int| 0 <= m < k ==> tasks@[m]@.id != id@,
        decreases n - k,
    {
        if tasks[k].id.same_as(id) {
            proof {
                assert(tasks@.map_values(|t: ProjectTask| t@)[k as int] == tasks@[k as int]@);
            }
            return true;
        }
        k = k + 1;
    }
    proof {
        let tv = tasks@.map_values(|t: ProjectTask| t@);
        assert forall|m: int| 0 <= m < tv.len() implies tv[m].id != id@ by {
            assert(tv[m] == tasks@[m]@);
        }
    }
    false
}

/// Does any project of `projects` carry the identifier `id`?
fn vec_has_pid(projects: &Vec<Project>, id: &Identifier) -> (r: bool)
    ensures
        r == has_pid(projects@.map_values(|p: Project| p@), id@),
{
    let n = projects.len();
    let mut k: usize = 0;
    while k < n
        invariant
            n == projects.len(),
            0 <= k <= n,
            forall|m: int| 0 <= m < k ==> projects@[m]@.id != id@,
        decreases n - k,
    {
        if projects[k].id.same_as(id) {
            proof {
                assert(projects@.map_values(|p: Project| p@)[k as int] == projects@[k as int]@);
            }
            return true;
        }
        k = k + 1;
    }
    proof {
        let pv = projects@.map_values(|p: Project| p@);
        assert forall|m: int| 0 <= m < pv.len() implies pv[m].id != id@ by {
            assert(pv[m] == projects@[m]@);
        }
    }
    false
}

/// Read a whole tasks object at position `i`: entries with pairwise
/// distinct identifiers, in file order.
#[verifier::rlimit(80)]
fn parse_tasks(v: &Vec<char>, i: usize) -> (r: Option<(Vec<ProjectTask>, usize)>)
    requires
        i <= v@.len(),
    ensures
        r matches Some((ts, j)) ==> i < j <= v@.len()
            && v@.subrange(i as int, j as int) == json_tasks(ts@.map_values(|t: ProjectTask| t@))
            && unique_tids(ts@.map_values(|t: ProjectTask| t@))
            && (forall|m: int| 0 <= m < ts@.len() ==> task_wf((#[trigger] ts@[m])@)),
{
    let n = v.len();
    let c0 = match parse_lit(v, i, "{") { Some(x) => x, None => { return None; } };
    proof {
        reveal_strlit("{");
        reveal_strlit("}");
    }
    let mut tasks: Vec<ProjectTask> = Vec::new();
    let mut cur: usize = c0;
    proof {
        assert(v@.subrange(c0 as int, cur as int) =~= Seq::<char>::empty());
    }
    match parse_lit(v, cur, "}") {
        Some(j) => {
            proof {
                let tv = tasks@.map_values(|t: ProjectTask| t@);
                assert(tv =~= Seq::<TaskModel>::empty());
                assert(v@.subrange(i as int, j as int)
                    =~= v@.subrange(i as int, c0 as int) + v@.subrange(c0 as int, j as int));
                assert(v@.subrange(i as int, j as int) =~= json_tasks(tv));
            }
            return Some((tasks, j));
        },
        None => {},
    }
    loop
        invariant
            n == v@.len(),
            i < c0 <= cur <= n,
            v@.subrange(i as int, c0 as int) == "{"@,
            v@.subrange(c0 as int, cur as int) == if tasks@.len() == 0 {
                Seq::<char>::empty()
            } else {
                json_task_entries(tasks@.map_values(|t: ProjectTask| t@)) + ","@
            },
            tasks@.len() == 0 ==> cur == c0,
            unique_tids(tasks@.map_values(|t: ProjectTask| t@)),
            forall|m: int| 0 <= m < tasks@.len() ==> task_wf((#[trigger] tasks@[m])@),
        decreases n - cur,
    {
        let (t, nx) = match parse_task_entry(v, cur) { Some(x) => x, None => { return None; } };
        if vec_has_tid(&tasks, &t.id) {
            return None;
        }
        let ghost tv0 = tasks@.map_values(|x: ProjectTask| x@);
        proof {
            lemma_task_entries_push(tv0, t@);
            assert(v@.subrange(c0 as int, nx as int)
                =~= v@.subrange(c0 as int, cur as int) + v@.subrange(cur as int, nx as int));
        }
        tasks.push(t);
        proof {
            let tv1 = tasks@.map_values(|x: ProjectTask| x@);
            assert(tv1 =~= tv0.push(t@));
            assert forall|a: int, b: int| 0 <= a < b < tv1.len()
                implies tv1[a].id != tv1[b].id by {
                if b == tv0.len() {
                    assert(tv1[a] == tv0[a]);
                    assert(!has_tid(tv0, t@.id));
                }
            }
            assert(v@.subrange(c0 as int, nx as int) =~= json_task_entries(tv1));
        }
        cur = nx;
        match parse_lit(v, cur, ",") {
            Some(j2) => {
                proof {
                    let tv1 = tasks@.map_values(|x: ProjectTask| x@);
                    assert(v@.subrange(c0 as int, j2 as int)
                        =~= v@.subrange(c0 as int, cur as int) + v@.subrange(cur as int, j2 as int));
                    assert(v@.subrange(c0 as int, j2 as int) =~= json_task_entries(tv1) + ","@);
                }
                cur = j2;
            },
            None => {
                match parse_lit(v, cur, "}") {
                    Some(j2) => {
                        proof {
                            let tv1 = tasks@.map_values(|x: ProjectTask| x@);
                            assert(v@.subrange(i as int, j2 as int)
                                =~= v@.subrange(i as int, c0 as int)
                                    + v@.subrange(c0 as int, cur as int)
                                    + v@.subrange(cur as int, j2 as int));
                            assert(v@.subrange(i as int, j2 as int) =~= json_tasks(tv1));
                        }
                        return Some((tasks, j2));
                    },
                    None => {
                        return None;
                    },
                }
            },
        }
    }
}

/// Read one top-level entry (key and project record) at position `i`.
#[verifier::rlimit(80)]
fn parse_project_entry(v: &Vec<char>, i: usize) -> (r: Option<(Project, usize)>)
    requires
        i <= v@.len(),
    ensures
        r matches Some((p, j)) ==> i < j <= v@.len()
            && v@.subrange(i as int, j as int) == json_project_entry(p@)
            && project_wf(p@),
{
    let (key, p1) = match parse_jid(v, i) { Some(x) => x, None => { return None; } };
    let p2 = match parse_lit(v, p1, ":") { Some(x) => x, None => { return None; } };
    let p3 = match parse_lit(v, p2, "{\"id\":") { Some(x) => x, None => { return None; } };
    let (id2, p4) = match parse_jid(v, p3) { Some(x) => x, None => { return None; } };
    if !key.same_as(&id2) {
        return None;
    }
    let p5 = match parse_lit(v, p4, ",\"name\":") { Some(x) => x, None => { return None; } };
    let (name, p6) = match parse_jstr(v, p5) { Some(x) => x, None => { return None; } };
    let p7 = match parse_lit(v, p6, ",\"description\":") { Some(x) => x, None => { return None; } };
    let (description, p8) = match parse_jstr(v, p7) { Some(x) => x, None => { return None; } };
    let p9 = match parse_lit(v, p8, ",\"tasks\":") { Some(x) => x, None => { return None; } };
    let (tasks, p10) = match parse_tasks(v, p9) { Some(x) => x, None => { return None; } };
    let p11 = match parse_lit(v, p10, "}") { Some(x) => x, None => { return None; } };
    let p = Project { id: id2, name, description, tasks };
    proof {
        assert(v@.subrange(i as int, p2 as int)
            =~= v@.subrange(i as int, p1 as int) + v@.subrange(p1 as int, p2 as int));
        assert(v@.subrange(i as int, p3 as int)
            =~= v@.subrange(i as int, p2 as int) + v@.subrange(p2 as int, p3 as int));
        assert(v@.subrange(i as int, p4 as int)
            =~= v@.subrange(i as int, p3 as int) + v@.subrange(p3 as int, p4 as int));
        assert(v@.subrange(i as int, p5 as int)
            =~= v@.subrange(i as int, p4 as int) + v@.subrange(p4 as int, p5 as int));
        assert(v@.subrange(i as int, p6 as int)
            =~= v@.subrange(i as int, p5 as int) + v@.subrange(p5 as int, p6 as int));
        assert(v@.subrange(i as int, p7 as int)
            =~= v@.subrange(i as int, p6 as int) + v@.subrange(p6 as int, p7 as int));
        assert(v@.subrange(i as int, p8 as int)
            =~= v@.subrange(i as int, p7 as int) + v@.subrange(p7 as int, p8 as int));
        assert(v@.subrange(i as int, p9 as int)
            =~= v@.subrange(i as int, p8 as int) + v@.subrange(p8 as int, p9 as int));
        assert(v@.subrange(i as int, p10 as int)
            =~= v@.subrange(i as int, p9 as int) + v@.subrange(p9 as int, p10 as int));
        assert(v@.subrange(i as int, p11 as int)
            =~= v@.subrange(i as int, p10 as int) + v@.subrange(p10 as int, p11 as int));
        assert(v@.subrange(i as int, p11 as int) =~= json_project_entry(p@));
    }
    Some((p, p11))
}

/// Read the whole top-level object: project entries with pairwise
/// distinct identifiers, in file order.
#[verifier::rlimit(80)]
fn parse_projects(v: &Vec<char>, i: usize) -> (r: Option<(Vec<Project>, usize)>)
    requires
        i <= v@.len(),
    ensures
        r matches Some((ps, j)) ==> i < j <= v@.len()
            && v@.subrange(i as int, j as int) == json_data(ps@.map_values(|p: Project| p@))
            && data_wf(ps@.map_values(|p: Project| p@)),
        matches_at(v@, i as int, json_data(Seq::<ProjectModel>::empty())) ==> r is Some,
{
    proof {
        reveal_strlit("{");
        reveal_strlit("}");
        assert(json_data(Seq::<ProjectModel>::empty()) =~= seq!['{', '}']);
    }
    let n = v.len();
    let c0 = match parse_lit(v, i, "{") {
        Some(x) => x,
        None => {
            proof {
                if matches_at(v@, i as int, json_data(Seq::<ProjectModel>::empty())) {
                    assert(v@.subrange(i as int, i + 1) =~= "{"@) by {
                        assert(v@.subrange(i as int, i + 2)[0] == v@[i as int]);
                    }
                    assert(matches_at(v@, i as int, "{"@));
                }
            }
            return None;
        },
    };
    let mut projects: Vec<Project> = Vec::new();
    let mut cur: usize = c0;
    proof {
        assert(v@.subrange(c0 as int, cur as int) =~= Seq::<char>::empty());
    }
    match parse_lit(v, cur, "}") {
        Some(j) => {
            proof {
                let pv = projects@.map_values(|p: Project| p@);
                assert(pv =~= Seq::<ProjectModel>::empty());
                assert(v@.subrange(i as int, j as int)
                    =~= v@.subrange(i as int, c0 as int) + v@.subrange(c0 as int, j as int));
                assert(v@.subrange(i as int, j as int) =~= json_data(pv));
            }
            return Some((projects, j));
        },
        None => {
            proof {
                if matches_at(v@, i as int, json_data(Seq::<ProjectModel>::empty())) {
                    assert(v@.subrange(c0 as int, c0 + 1) =~= "}"@) by {
                        assert(v@.subrange(i as int, i + 2)[1] == v@[i + 1]);
                    }
                    assert(matches_at(v@, c0 as int, "}"@));
                }
            }
        },
    }
    loop
        invariant
            n == v@.len(),
            i < c0 <= cur <= n,
            !matches_at(v@, i as int, json_data(Seq::<ProjectModel>::empty())),
            v@.subrange(i as int, c0 as int) == "{"@,
            v@.subrange(c0 as int, cur as int) == if projects@.len() == 0 {
                Seq::<char>::empty()
            } else {
                json_project_entries(projects@.map_values(|p: Project| p@)) + ","@
            },
            projects@.len() == 0 ==> cur == c0,
            unique_pids(projects@.map_values(|p: Project| p@)),
            forall|m: int| 0 <= m < projects@.len() ==> project_wf((#[trigger] projects@[m])@),
        decreases n - cur,
    {
        let (p, nx) = match parse_project_entry(v, cur) { Some(x) => x, None => { return None; } };
        if vec_has_pid(&projects, &p.id) {
            return None;
        }
        let ghost pv0 = projects@.map_values(|x: Project| x@);
        proof {
            lemma_project_entries_push(pv0, p@);
            assert(v@.subrange(c0 as int, nx as int)
                =~= v@.subrange(c0 as int, cur as int) + v@.subrange(cur as int, nx as int));
        }
        projects.push(p);
        proof {
            let pv1 = projects@.map_values(|x: Project| x@);
            assert(pv1 =~= pv0.push(p@));
            assert forall|a: int, b: int| 0 <= a < b < pv1.len()
                implies pv1[a].id != pv1[b].id by {
                if b == pv0.len() {
                    assert(pv1[a] == pv0[a]);
                    assert(!has_pid(pv0, p@.id));
                }
            }
            assert(v@.subrange(c0 as int, nx as int) =~= json_project_entries(pv1));
        }
        cur = nx;
        match parse_lit(v, cur, ",") {
            Some(j2) => {
                proof {
                    let pv1 = projects@.map_values(|x: Project| x@);
                    assert(v@.subrange(c0 as int, j2 as int)
                        =~= v@.subrange(c0 as int, cur as int) + v@.subrange(cur as int, j2 as int));
                    assert(v@.subrange(c0 as int, j2 as int) =~= json_project_entries(pv1) + ","@);
                }
                cur = j2;
            },
            None => {
                match parse_lit(v, cur, "}") {
                    Some(j2) => {
                        proof {
                            let pv1 = projects@.map_values(|x: Project| x@);
                            assert(v@.subrange(i as int, j2 as int)
                                =~= v@.subrange(i as int, c0 as int)
                                    + v@.subrange(c0 as int, cur as int)
                                    + v@.subrange(cur as int, j2 as int));
                            assert(v@.subrange(i as int, j2 as int) =~= json_data(pv1));
                        }
                        return Some((projects, j2));
                    },
                    None => {
                        return None;
                    },
                }
            },
        }
    }
}

/// Read the collection out of the backing file's content, `None` standing
/// for a file that does not exist.
///
/// A missing file is the empty collection, not an error. Content that
/// loads successfully is exactly the canonical rendering of the loaded
/// collection — so saving what was loaded reproduces the file — and,
/// the rendering being injective, the loaded collection is the one the
/// content was saved from. Anything else is `CorruptStore`.
pub fn load_data(content: Option<&str>) -> (r: Result<ProjectData, Error>)
    ensures
        content is None ==> r is Ok && r->Ok_0@ == Seq::<ProjectModel>::empty(),
        r is Ok ==> data_wf(r->Ok_0@),
        content matches Some(s) ==> {
            &&& r matches Ok(d) ==> s@ == json_data(d@)
            &&& r matches Ok(d) ==> (forall|m: Seq<ProjectModel>|
                data_wf(m) && s@ == json_data(m) ==> d@ == m)
            &&& s@ == json_data(Seq::<ProjectModel>::empty()) ==> r is Ok
            &&& r is Err ==> r->Err_0 == Error::CorruptStore
        },
{
    proof {
        reveal_strlit("{");
        reveal_strlit("}");
        assert(json_data(Seq::<ProjectModel>::empty()) =~= seq!['{', '}']);
    }
    match content {
        None => Ok(ProjectData::new()),
        Some(s) => {
            let v = to_chars(s);
            match parse_projects(&v, 0) {
                Some((projects, j)) => {
                    if j == v.len() {
                        let d = ProjectData::from_projects(projects);
                        proof {
                            assert(v@.subrange(0, j as int) =~= s@);
                            assert forall|m: Seq<ProjectModel>|
                                data_wf(m) && s@ == json_data(m) implies d@ == m by {
                                lemma_json_data_injective(d@, m);
                            }
                        }
                        Ok(d)
                    } else {
                        proof {
                            if s@ == json_data(Seq::<ProjectModel>::empty()) {
                                let pv = projects@.map_values(|p: Project| p@);
                                assert(v@.subrange(0, j as int) == json_data(pv));
                                assert(j as int == json_data(pv).len());
                                assert(json_data(pv).len() >= 2);
                                assert(v@.len() == 2);
                            }
                        }
                        Err(Error::CorruptStore)
                    }
                },
                None => {
                    proof {
                        if s@ == json_data(Seq::<ProjectModel>::empty()) {
                            assert(v@.subrange(0, 2) =~= v@);
                            assert(matches_at(v@, 0, json_data(Seq::<ProjectModel>::empty())));
                        }
                    }
                    Err(Error::CorruptStore)
                },
            }
        },
    }
}

} // verus!

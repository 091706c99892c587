//! The commands that start with a slash, and the popup that offers them.
use vstd::prelude::*;

use crate::seqs;
use crate::session::{ClaudeSession, SessionView};
use crate::text;
use crate::text::{begins, cat3, same, trimmed_start, word};

verus! {

/// The commands, each with what it does; `assistant` is the name that is shown.
pub open spec fn slash_table(assistant: Seq<char>) -> Seq<(Seq<char>, Seq<char>)> {
    seq![
        ("/btw"@, "Send /btw to "@ + assistant + " session"@),
        ("/cd"@, "Change working directory"@),
        ("/clear"@, "Clear output"@),
        ("/kill"@, "Kill session process"@),
        ("/resume"@, "Resume a "@ + assistant + " session by ID"@),
        ("/dangerously-skip-permissions"@, "Auto-skip all permissions"@),
    ]
}

pub open spec fn offered(
    command: (Seq<char>, Seq<char>),
    prefix: Seq<char>,
) -> Option<(Seq<char>, Seq<char>)> {
    if text::starts_with(command.0, prefix) {
        Some(command)
    } else {
        None
    }
}

/// The commands whose names start with `prefix`.
pub open spec fn matching(prefix: Seq<char>, assistant: Seq<char>) -> Seq<(Seq<char>, Seq<char>)> {
    seqs::filter_map(slash_table(assistant), |c: (Seq<char>, Seq<char>)| offered(c, prefix))
}

/// Whether `word` is the name of a command.
pub open spec fn is_command(word: Seq<char>) -> bool {
    word == "/btw"@ || word == "/cd"@ || word == "/clear"@ || word == "/kill"@ || word
        == "/resume"@ || word == "/dangerously-skip-permissions"@
}

pub open spec fn commands_view(
    v: Seq<(&'static str, String)>,
) -> Seq<(Seq<char>, Seq<char>)> {
    v.map_values(|c: (&'static str, String)| (c.0@, c.1@))
}

impl SessionView {
    pub open spec fn popup_hidden(self) -> SessionView {
        SessionView { slash_popup_visible: false, slash_popup_selected: 0, ..self }
    }

    /// The popup after the input has changed: it offers what the first word may become.
    pub open spec fn popup_updated(self) -> SessionView {
        let prefix = text::first_word(self.input_buf);
        let n = matching(prefix, self.assistant.name).len();
        if !text::starts_with(text::trim_start(self.input_buf), "/"@) || is_command(prefix) || n
            == 0 {
            self.popup_hidden()
        } else {
            SessionView {
                slash_popup_visible: true,
                slash_popup_selected: if self.slash_popup_selected >= n {
                    0
                } else {
                    self.slash_popup_selected
                },
                ..self
            }
        }
    }
}

/// All the commands; `assistant` is the name that is shown.
pub fn slash_commands(assistant: &str) -> (r: Vec<(&'static str, String)>)
    ensures
        commands_view(r@) == slash_table(assistant@),
{
    let mut r: Vec<(&'static str, String)> = Vec::new();
    r.push(("/btw", cat3("Send /btw to ", assistant, " session")));
    r.push(("/cd", "Change working directory".to_string()));
    r.push(("/clear", "Clear output".to_string()));
    r.push(("/kill", "Kill session process".to_string()));
    r.push(("/resume", cat3("Resume a ", assistant, " session by ID")));
    r.push(("/dangerously-skip-permissions", "Auto-skip all permissions".to_string()));
    assert(commands_view(r@) =~= slash_table(assistant@));
    r
}

/// The commands whose names start with `prefix`.
pub fn filtered_slash_commands(prefix: &str, assistant: &str) -> (r: Vec<(&'static str, String)>)
    ensures
        commands_view(r@) == matching(prefix@, assistant@),
{
    let all = slash_commands(assistant);
    let mut r: Vec<(&'static str, String)> = Vec::new();
    let ghost table = slash_table(assistant@);
    let ghost f = |c: (Seq<char>, Seq<char>)| offered(c, prefix@);
    let mut i: usize = 0;
    assert(table.take(0) == Seq::<(Seq<char>, Seq<char>)>::empty());
    assert(commands_view(r@) == Seq::<(Seq<char>, Seq<char>)>::empty());
    while i < all.len()
        invariant
            i <= all@.len(),
            table == slash_table(assistant@),
            commands_view(all@) == table,
            f == (|c: (Seq<char>, Seq<char>)| offered(c, prefix@)),
            commands_view(r@) == seqs::filter_map(table.take(i as int), f),
        decreases all@.len() - i,
    {
        proof {
            assert(table[i as int] == (all@[i as int].0@, all@[i as int].1@)) by {
                assert(commands_view(all@)[i as int] == (all@[i as int].0@, all@[i as int].1@));
            }
            seqs::lemma_filter_map_step(table, i as int, f);
        }
        if begins(all[i].0, prefix) {
            let ghost before = commands_view(r@);
            r.push((all[i].0, all[i].1.clone()));
            assert(commands_view(r@) == before.push((all@[i as int].0@, all@[i as int].1@)));
        }
        i += 1;
    }
    assert(table.take(i as int) == table);
    r
}

fn names_command(w: &str) -> (r: bool)
    ensures
        r == is_command(w@),
{
    same(w, "/btw") || same(w, "/cd") || same(w, "/clear") || same(w, "/kill") || same(w, "/resume")
        || same(w, "/dangerously-skip-permissions")
}

/// Where white space was dropped from the start, the first word is the same.
proof fn lemma_first_word_of_trimmed(s: Seq<char>)
    ensures
        text::trim_start(text::trim_start(s)) == text::trim_start(s),
    decreases s.len(),
{
    if s.len() > 0 && text::white_space(s[0]) {
        lemma_first_word_of_trimmed(s.drop_first());
    }
}

/// Update slash popup visibility based on current input buffer.
pub fn update_slash_popup(session: &mut ClaudeSession)
    ensures
        final(session)@ == old(session)@.popup_updated(),
{
    let mut offer: usize = 0;
    let trimmed = trimmed_start(session.input_buf.as_str());
    if begins(trimmed, "/") {
        let prefix = word(trimmed);
        proof {
            lemma_first_word_of_trimmed(session.input_buf@);
        }
        if !names_command(prefix) {
            let found = filtered_slash_commands(prefix, session.assistant.name.as_str());
            offer = found.len();
            assert(offer == matching(prefix@, session.assistant.name@).len());
        }
    }
    if offer > 0 {
        session.slash_popup_visible = true;
        if session.slash_popup_selected >= offer {
            session.slash_popup_selected = 0;
        }
    } else {
        session.slash_popup_visible = false;
        session.slash_popup_selected = 0;
    }
}

// ── Laws ──

/// The popup, once updated, points at a command that it offers, and never offers what is already
/// complete.
pub proof fn law_popup_points_at_an_offer(s: SessionView)
    requires
        s.slash_popup_selected >= 0,
    ensures
        ({
            let t = s.popup_updated();
            let offers = matching(text::first_word(s.input_buf), s.assistant.name);
            &&& t.slash_popup_visible ==> 0 <= t.slash_popup_selected < offers.len()
            &&& t.slash_popup_visible ==> !is_command(text::first_word(s.input_buf))
            &&& !t.slash_popup_visible ==> t.slash_popup_selected == 0
        }),
{
}

/// Every offer starts with what was typed.
pub proof fn law_offers_match(prefix: Seq<char>, assistant: Seq<char>)
    ensures
        forall|i: int|
            0 <= i < matching(prefix, assistant).len() ==> text::starts_with(
                #[trigger] matching(prefix, assistant)[i].0,
                prefix,
            ),
{
    let f = |c: (Seq<char>, Seq<char>)| offered(c, prefix);
    lemma_offers_match(slash_table(assistant), prefix, f);
}

proof fn lemma_offers_match(
    table: Seq<(Seq<char>, Seq<char>)>,
    prefix: Seq<char>,
    f: spec_fn((Seq<char>, Seq<char>)) -> Option<(Seq<char>, Seq<char>)>,
)
    requires
        f == (|c: (Seq<char>, Seq<char>)| offered(c, prefix)),
    ensures
        forall|i: int|
            0 <= i < seqs::filter_map(table, f).len() ==> text::starts_with(
                (#[trigger] seqs::filter_map(table, f)[i]).0,
                prefix,
            ),
    decreases table.len(),
{
    if table.len() > 0 {
        lemma_offers_match(table.drop_last(), prefix, f);
        let before = seqs::filter_map(table.drop_last(), f);
        let all = seqs::filter_map(table, f);
        assert forall|i: int| 0 <= i < all.len() implies text::starts_with(
            (#[trigger] all[i]).0,
            prefix,
        ) by {
            if i < before.len() {
                assert(all[i] == before[i]);
            }
        }
    }
}

proof fn lemma_table_names(assistant: Seq<char>)
    ensures
        slash_table(assistant).len() == 6,
        slash_table(assistant)[0].0 == "/btw"@,
        slash_table(assistant)[1].0 == "/cd"@,
        slash_table(assistant)[2].0 == "/clear"@,
        slash_table(assistant)[3].0 == "/kill"@,
        slash_table(assistant)[4].0 == "/resume"@,
        slash_table(assistant)[5].0 == "/dangerously-skip-permissions"@,
{
}

/// A word names a command exactly where it stands in the table of the commands.
pub proof fn law_the_table_has_the_commands(word: Seq<char>, assistant: Seq<char>)
    ensures
        is_command(word) <==> exists|i: int|
            0 <= i < slash_table(assistant).len() && (#[trigger] slash_table(assistant)[i]).0
                == word,
{
    let table = slash_table(assistant);
    lemma_table_names(assistant);
    if is_command(word) {
        assert(table[0].0 == word || table[1].0 == word || table[2].0 == word || table[3].0 == word
            || table[4].0 == word || table[5].0 == word);
    }
}

/// Every command whose name starts with what was typed is offered, and a command that does not is
/// not; they are offered in the order of the table, which a single slash shows.
pub proof fn law_all_that_match_are_offered(prefix: Seq<char>, assistant: Seq<char>, i: int)
    requires
        0 <= i < slash_table(assistant).len(),
    ensures
        text::starts_with(slash_table(assistant)[i].0, prefix) ==> matching(
            prefix,
            assistant,
        ).contains(slash_table(assistant)[i]),
        matching("/"@, assistant) == slash_table(assistant),
        matching(Seq::empty(), assistant) == slash_table(assistant),
{
    let table = slash_table(assistant);
    let f = |c: (Seq<char>, Seq<char>)| offered(c, prefix);
    seqs::law_filter_map_has_what_is_made(table, f, i);
    if text::starts_with(table[i].0, prefix) {
        assert(f(table[i]) == Some(table[i]));
    }
    lemma_all_start_with(assistant, "/"@);
    lemma_all_start_with(assistant, Seq::empty());
}

proof fn lemma_all_start_with(assistant: Seq<char>, prefix: Seq<char>)
    requires
        prefix == "/"@ || prefix.len() == 0,
    ensures
        matching(prefix, assistant) == slash_table(assistant),
{
    let table = slash_table(assistant);
    let g = |c: (Seq<char>, Seq<char>)| offered(c, prefix);
    reveal_strlit("/");
    reveal_strlit("/btw");
    reveal_strlit("/cd");
    reveal_strlit("/clear");
    reveal_strlit("/kill");
    reveal_strlit("/resume");
    reveal_strlit("/dangerously-skip-permissions");
    lemma_table_names(assistant);
    assert forall|k: int| 0 <= k < table.len() implies g(#[trigger] table[k]) == Some(table[k]) by {
        let name = table[k].0;
        assert(name.len() >= 3);
        assert(name[0] == '/');
        assert(name.take(prefix.len() as int) =~= prefix);
    }
    assert forall|k: int| 0 <= k < table.len() implies #[trigger] matching(prefix, assistant)[k]
        == table[k] by {
        seqs::law_filter_map_keeps_the_places(table, g, k);
    }
    seqs::law_filter_map_keeps_the_places(table, g, 0);
    assert(matching(prefix, assistant) =~= table);
}

/// The popup shows while the first word of the input begins with a slash, is no whole command, and
/// may still become one. Nothing else of the session changes.
pub proof fn law_when_the_popup_shows(s: SessionView)
    ensures
        ({
            let t = s.popup_updated();
            let word = text::first_word(s.input_buf);
            &&& t.slash_popup_visible <==> text::starts_with(
                text::trim_start(s.input_buf),
                "/"@,
            ) && !is_command(word) && exists|i: int|
                0 <= i < slash_table(s.assistant.name).len() && text::starts_with(
                    (#[trigger] slash_table(s.assistant.name)[i]).0,
                    word,
                )
            &&& t == (SessionView {
                slash_popup_visible: t.slash_popup_visible,
                slash_popup_selected: t.slash_popup_selected,
                ..s
            })
            &&& t.slash_popup_visible && 0 <= s.slash_popup_selected < matching(
                word,
                s.assistant.name,
            ).len() ==> t.slash_popup_selected == s.slash_popup_selected
        }),
{
    let word = text::first_word(s.input_buf);
    let table = slash_table(s.assistant.name);
    let f = |c: (Seq<char>, Seq<char>)| offered(c, word);
    seqs::law_filter_map_has_what_is_made(table, f, 0);
    if exists|i: int|
        0 <= i < table.len() && text::starts_with((#[trigger] table[i]).0, word) {
        let i = choose|i: int|
            0 <= i < table.len() && text::starts_with((#[trigger] table[i]).0, word);
        assert(f(table[i]) is Some);
    } else {
        assert forall|k: int| 0 <= k < table.len() implies f(#[trigger] table[k]) is None by {}
    }
}

}

//! The decisions behind the command-line tool: the dashboard's menu,
//! themes and hit testing, plugin manifests, workflow variables, report
//! periods and sandboxed tools.

use vstd::prelude::*;
use crate::engine::{tool_allowed, PolicyEngine};
use crate::error::AcerError;
use crate::keyed_map::{entries_map, KeyedMap};
use crate::text::{
    chars_of, contains_chars, decimal, decimal_string, is_white_space, owned, push_char, str_contains, str_eq,
    strings_view, trim, trim_chars,
};

verus! {

// ----- dashboard ------------------------------------------------------------

/// The dashboard's color themes, in the order `t` cycles through them.
#[derive(Debug, Clone, Copy, PartialEq, Eq, Structural)]
pub enum Theme {
    Rave,
    Matrix,
    Cyberpunk,
    Monochrome,
}

/// The theme after `t`.
pub open spec fn theme_after(t: Theme) -> Theme {
    match t {
        Theme::Rave => Theme::Matrix,
        Theme::Matrix => Theme::Cyberpunk,
        Theme::Cyberpunk => Theme::Monochrome,
        Theme::Monochrome => Theme::Rave,
    }
}

/// The name shown for a theme.
pub open spec fn theme_name(t: Theme) -> Seq<char> {
    match t {
        Theme::Rave => "Rave"@,
        Theme::Matrix => "Matrix"@,
        Theme::Cyberpunk => "Cyberpunk"@,
        Theme::Monochrome => "Monochrome"@,
    }
}

impl Theme {
    /// The next theme in the cycle.
    pub fn next(self) -> (t: Theme)
        ensures
            t == theme_after(self),
    {
        match self {
            Theme::Rave => Theme::Matrix,
            Theme::Matrix => Theme::Cyberpunk,
            Theme::Cyberpunk => Theme::Monochrome,
            Theme::Monochrome => Theme::Rave,
        }
    }

    /// The theme's name.
    pub fn name(self) -> (s: &'static str)
        ensures
            s@ == theme_name(self),
    {
        match self {
            Theme::Rave => "Rave",
            Theme::Matrix => "Matrix",
            Theme::Cyberpunk => "Cyberpunk",
            Theme::Monochrome => "Monochrome",
        }
    }
}

/// Cycling through the themes comes back to the start after four steps,
/// and no sooner.
pub proof fn lemma_theme_cycle(t: Theme)
    ensures
        theme_after(theme_after(theme_after(theme_after(t)))) == t,
        theme_after(t) != t,
        theme_after(theme_after(t)) != t,
        theme_after(theme_after(theme_after(t))) != t,
{
}

/// One entry of the dashboard's menu.
#[derive(Debug, Clone, Copy)]
pub struct MenuItem {
    pub title: &'static str,
    pub description: &'static str,
}

impl MenuItem {
    /// A menu entry.
    pub fn new(title: &'static str, description: &'static str) -> (m: MenuItem)
        ensures
            m.title == title,
            m.description == description,
    {
        MenuItem { title, description }
    }
}

/// The number of entries of the dashboard's menu.
pub const MENU_LEN: usize = 7;

/// The titles of the dashboard's menu, in order.
pub const MENU_TITLES: [&'static str; 7] = [
    "Command Center",
    "Recent Runs",
    "Models",
    "Providers",
    "Policy",
    "Plugins",
    "Quick Start",
];

/// Which menu entry is selected, and the status line that reports it.
pub struct MenuCursor {
    pub selected: usize,
    pub status: String,
}

/// The entry selected when asked for `index`: the last one for anything
/// past the end.
pub open spec fn clamp_index(index: usize) -> usize {
    if index < MENU_LEN {
        index
    } else {
        (MENU_LEN - 1) as usize
    }
}

/// The status line after selecting entry `i`.
pub open spec fn selected_status(i: int) -> Seq<char> {
    "Selected "@ + MENU_TITLES@[i]@ + "."@
}

impl MenuCursor {
    /// A cursor on the first entry with the given status line.
    pub fn new(status: String) -> (c: MenuCursor)
        ensures
            c.selected == 0,
            c.status == status,
    {
        MenuCursor { selected: 0, status }
    }

    /// Selects entry `index`, or the last entry when `index` is past the end.
    pub fn set_selected(&mut self, index: usize)
        ensures
            final(self).selected == clamp_index(index),
            final(self).status@ == selected_status(clamp_index(index) as int),
    {
        let i = if index < MENU_LEN { index } else { MENU_LEN - 1 };
        self.selected = i;
        let mut s = String::from_str("Selected ");
        s.append(MENU_TITLES[i]);
        s.append(".");
        self.status = s;
    }

    /// Moves to the next entry, from the last back to the first.
    pub fn next(&mut self)
        requires
            old(self).selected < MENU_LEN,
        ensures
            final(self).selected == (old(self).selected + 1) % (MENU_LEN as int),
            final(self).status@ == selected_status(final(self).selected as int),
    {
        self.set_selected((self.selected + 1) % MENU_LEN);
    }

    /// Moves to the previous entry, from the first to the last.
    pub fn previous(&mut self)
        requires
            old(self).selected < MENU_LEN,
        ensures
            final(self).selected == if old(self).selected == 0 { MENU_LEN - 1 } else { old(self).selected - 1 },
            final(self).status@ == selected_status(final(self).selected as int),
    {
        let target = if self.selected == 0 { MENU_LEN - 1 } else { self.selected - 1 };
        self.set_selected(target);
    }
}

/// Moving to the next entry and back, or back and then on, returns to the
/// same entry.
pub proof fn lemma_next_previous_inverse(selected: usize)
    requires
        selected < MENU_LEN,
    ensures
        ({
            let n = ((selected + 1) % (MENU_LEN as int)) as usize;
            (if n == 0 { MENU_LEN - 1 } else { n - 1 }) == selected
        }),
        ({
            let p = if selected == 0 { (MENU_LEN - 1) as usize } else { (selected - 1) as usize };
            (p + 1) % (MENU_LEN as int) == selected
        }),
{
}

/// A rectangle of terminal cells.
#[derive(Debug, Clone, Copy, PartialEq, Eq, Structural)]
pub struct UiRect {
    pub x: u16,
    pub y: u16,
    pub width: u16,
    pub height: u16,
}

/// `a + b`, or the largest `u16` when the sum does not fit.
pub open spec fn saturating_add_u16(a: u16, b: u16) -> int {
    if a + b > u16::MAX {
        u16::MAX as int
    } else {
        a + b
    }
}

/// Whether the cell `(x, y)` lies in `rect` (whose far edges are clipped
/// to the terminal's coordinate range).
pub open spec fn inside(rect: UiRect, x: u16, y: u16) -> bool {
    &&& x >= rect.x
    &&& x < saturating_add_u16(rect.x, rect.width)
    &&& y >= rect.y
    &&& y < saturating_add_u16(rect.y, rect.height)
}

/// Whether the cell `(x, y)` lies in `rect`.
pub fn contains_point(rect: UiRect, x: u16, y: u16) -> (b: bool)
    ensures
        b == inside(rect, x, y),
{
    x >= rect.x && x < rect.x.saturating_add(rect.width) && y >= rect.y && y < rect.y.saturating_add(rect.height)
}

/// The menu entry under the cell `(x, y)` of the menu's box: the box's
/// first row and column are its border, and entry `i` is on row `i + 1`.
pub open spec fn menu_entry_at(menu: UiRect, x: u16, y: u16) -> Option<usize> {
    if !inside(menu, x, y) || y <= menu.y || x <= menu.x {
        None
    } else if y - menu.y - 1 < MENU_LEN {
        Some((y - menu.y - 1) as usize)
    } else {
        None
    }
}

/// Finds the menu entry that a click at `(x, y)` hits.
pub fn menu_hit_test(menu: UiRect, x: u16, y: u16) -> (r: Option<usize>)
    ensures
        r == menu_entry_at(menu, x, y),
{
    if !contains_point(menu, x, y) || y <= menu.y || x <= menu.x {
        return None;
    }
    let index = (y - menu.y - 1) as usize;
    if index < MENU_LEN {
        Some(index)
    } else {
        None
    }
}

/// `value` cut to `width` characters: unchanged when it fits, else its
/// first `width - 3` characters (none when `width < 3`) and `...`.
pub open spec fn truncated(value: Seq<char>, width: usize) -> Seq<char> {
    if value.len() <= width {
        value
    } else {
        value.take(if width >= 3 { width - 3 } else { 0 }) + "..."@
    }
}

/// Cuts `value` to fit `width` characters.
pub fn truncate(value: &str, width: usize) -> (r: String)
    ensures
        r@ == truncated(value@, width),
{
    let chars = chars_of(value);
    if chars.len() <= width {
        return owned(value);
    }
    let keep = if width >= 3 { width - 3 } else { 0 };
    let mut s = String::new();
    let mut i: usize = 0;
    while i < keep
        invariant
            chars@ == value@,
            keep < chars@.len(),
            i <= keep,
            s@ == chars@.take(i as int),
        decreases keep - i,
    {
        push_char(&mut s, chars[i]);
        i = i + 1;
        assert(s@ =~= chars@.take(i as int));
    }
    s.append("...");
    s
}

/// `yes` or `no`.
pub fn yes_no(value: bool) -> (s: &'static str)
    ensures
        s@ == (if value { "yes"@ } else { "no"@ }),
{
    if value {
        "yes"
    } else {
        "no"
    }
}

// ----- plugins --------------------------------------------------------------

/// What a plugin adds.
#[derive(Debug, Clone, Copy, PartialEq, Eq, Structural)]
pub enum PluginType {
    Provider,
    Workflow,
}

/// The endpoint a provider plugin serves.
#[derive(Debug)]
pub struct ProviderPlugin {
    pub base_url: String,
    pub api_key_env: Option<String>,
    pub vault_key: Option<String>,
}

/// The command a workflow plugin runs.
#[derive(Debug)]
pub struct WorkflowPlugin {
    pub command: String,
}

/// A plugin's manifest.
#[derive(Debug)]
pub struct PluginManifest {
    pub name: String,
    pub description: Option<String>,
    pub plugin_type: PluginType,
    pub provider: Option<ProviderPlugin>,
    pub workflow: Option<WorkflowPlugin>,
}

/// Why a manifest is refused, if it is: an empty name, or a missing or
/// empty section for its type.
pub open spec fn manifest_problem(m: PluginManifest) -> Option<Seq<char>> {
    if trim_chars(m.name@).len() == 0 {
        Some("Plugin name cannot be empty"@)
    } else {
        match m.plugin_type {
            PluginType::Provider => match m.provider {
                None => Some("Provider plugin '"@ + m.name@ + "' is missing [provider]"@),
                Some(p) => if trim_chars(p.base_url@).len() == 0 {
                    Some("Provider plugin '"@ + m.name@ + "' has an empty base_url"@)
                } else {
                    None
                },
            },
            PluginType::Workflow => match m.workflow {
                None => Some("Workflow plugin '"@ + m.name@ + "' is missing [workflow]"@),
                Some(w) => if trim_chars(w.command@).len() == 0 {
                    Some("Workflow plugin '"@ + m.name@ + "' has an empty command"@)
                } else {
                    None
                },
            },
        }
    }
}

fn quoted_message(before: &str, name: &str, after: &str) -> (m: String)
    ensures
        m@ == before@ + name@ + after@,
{
    let mut m = String::from_str(before);
    m.append(name);
    m.append(after);
    m
}

impl PluginManifest {
    /// Checks the manifest; the error says what is wrong with it.
    pub fn validate(&self) -> (r: Result<(), String>)
        ensures
            r is Ok == manifest_problem(*self) is None,
            r matches Err(m) ==> Some(m@) == manifest_problem(*self),
    {
        if trim(self.name.as_str()).is_empty() {
            return Err(owned("Plugin name cannot be empty"));
        }
        match self.plugin_type {
            PluginType::Provider => match &self.provider {
                None => Err(quoted_message("Provider plugin '", self.name.as_str(), "' is missing [provider]")),
                Some(p) => if trim(p.base_url.as_str()).is_empty() {
                    Err(quoted_message("Provider plugin '", self.name.as_str(), "' has an empty base_url"))
                } else {
                    Ok(())
                },
            },
            PluginType::Workflow => match &self.workflow {
                None => Err(quoted_message("Workflow plugin '", self.name.as_str(), "' is missing [workflow]")),
                Some(w) => if trim(w.command.as_str()).is_empty() {
                    Err(quoted_message("Workflow plugin '", self.name.as_str(), "' has an empty command"))
                } else {
                    Ok(())
                },
            },
        }
    }
}

/// The position of the first plugin with this name.
pub open spec fn first_named(plugins: Seq<PluginManifest>, name: Seq<char>) -> Option<int>
    decreases plugins.len(),
{
    if plugins.len() == 0 {
        None
    } else {
        match first_named(plugins.drop_last(), name) {
            Some(i) => Some(i),
            None => if plugins.last().name@ == name {
                Some(plugins.len() - 1)
            } else {
                None
            },
        }
    }
}

/// The first of `plugins` with this name.
pub fn find_plugin(plugins: Vec<PluginManifest>, name: &str) -> (r: Option<PluginManifest>)
    ensures
        r is Some == first_named(plugins@, name@) is Some,
        r matches Some(p) ==> p == plugins@[first_named(plugins@, name@)->0],
{
    let ghost all = plugins@;
    let mut rest = plugins;
    let mut found: Option<PluginManifest> = None;
    while rest.len() > 0
        invariant
            rest@ == all.take(rest@.len() as int),
            rest@.len() <= all.len(),
            found is None ==> forall|j: int| rest@.len() <= j < all.len() ==> (#[trigger] all[j]).name@ != name@,
            found matches Some(p) ==> exists|j: int| rest@.len() <= j < all.len() && all[j] == p && p.name@ == name@
                && forall|q: int| rest@.len() <= q < j ==> (#[trigger] all[q]).name@ != name@,
        decreases rest@.len(),
    {
        let ghost n = rest@.len();
        let p = rest.pop().unwrap();
        assert(p == all[n - 1]);
        assert(rest@ =~= all.take(n - 1));
        if str_eq(p.name.as_str(), name) {
            found = Some(p);
        }
    }
    proof {
        lemma_first_named(all, name@);
    }
    found
}

proof fn lemma_first_named(plugins: Seq<PluginManifest>, name: Seq<char>)
    ensures
        first_named(plugins, name) matches Some(i) ==> 0 <= i < plugins.len() && plugins[i].name@ == name
            && forall|q: int| 0 <= q < i ==> (#[trigger] plugins[q]).name@ != name,
        first_named(plugins, name) is None ==> forall|q: int| 0 <= q < plugins.len() ==> (#[trigger] plugins[q]).name@ != name,
    decreases plugins.len(),
{
    if plugins.len() > 0 {
        let init = plugins.drop_last();
        lemma_first_named(init, name);
        assert forall|q: int| 0 <= q < init.len() implies init[q] == plugins[q] by {}
    }
}

// ----- workflows, reports, sandbox ------------------------------------------

/// The variables `NAME=VALUE` given to a workflow: each splits at its first
/// `=`; entries without one are ignored; a later entry replaces an earlier
/// one of the same name.
pub open spec fn workflow_vars(vars: Seq<Seq<char>>) -> Map<Seq<char>, Seq<char>>
    decreases vars.len(),
{
    if vars.len() == 0 {
        Map::empty()
    } else {
        let before = workflow_vars(vars.drop_last());
        let v = vars.last();
        if exists|i: int| 0 <= i < v.len() && v[i] == '=' {
            let i = first_eq(v);
            before.insert(v.take(i), v.skip(i + 1))
        } else {
            before
        }
    }
}

/// The position of the first `=` of `v` (meaningful when there is one).
pub open spec fn first_eq(v: Seq<char>) -> int {
    choose|i: int| 0 <= i < v.len() && v[i] == '=' && forall|j: int| 0 <= j < i ==> v[j] != '='
}

fn split_at_eq(v: &str) -> (r: Option<(String, String)>)
    ensures
        r is Some == exists|i: int| 0 <= i < v@.len() && v@[i] == '=',
        r matches Some((k, val)) ==> k@ == v@.take(first_eq(v@)) && val@ == v@.skip(first_eq(v@) + 1),
{
    let chars = chars_of(v);
    let mut i: usize = 0;
    while i < chars.len()
        invariant
            chars@ == v@,
            i <= chars@.len(),
            forall|j: int| 0 <= j < i ==> chars@[j] != '=',
        decreases chars@.len() - i,
    {
        if chars[i] == '=' {
            let mut key = String::new();
            let mut k: usize = 0;
            while k < i
                invariant
                    chars@ == v@,
                    k <= i < chars@.len(),
                    key@ == chars@.take(k as int),
                decreases i - k,
            {
                push_char(&mut key, chars[k]);
                k = k + 1;
                assert(key@ =~= chars@.take(k as int));
            }
            let mut val = String::new();
            let mut m: usize = i + 1;
            while m < chars.len()
                invariant
                    chars@ == v@,
                    i < m <= chars@.len() || m == i + 1,
                    i + 1 <= m <= chars@.len(),
                    val@ == chars@.subrange(i + 1, m as int),
                decreases chars@.len() - m,
            {
                push_char(&mut val, chars[m]);
                m = m + 1;
                assert(val@ =~= chars@.subrange(i + 1, m as int));
            }
            proof {
                let f = first_eq(v@);
                assert(0 <= i < v@.len() && v@[i as int] == '=' && forall|j: int| 0 <= j < i ==> v@[j] != '=');
                assert(0 <= f < v@.len() && v@[f] == '=' && forall|j: int| 0 <= j < f ==> v@[j] != '=');
                if f < i {
                    assert(v@[f] != '=');
                }
                if i < f {
                    assert(v@[i as int] != '=');
                }
                assert(f == i);
                assert(val@ =~= v@.skip(i + 1));
            }
            return Some((key, val));
        }
        i = i + 1;
    }
    None
}

/// Reads the workflow variables given on the command line.
pub fn parse_workflow_vars(vars: &Vec<String>) -> (m: KeyedMap<String>)
    ensures
        m@ == workflow_vars(vars@.map_values(|s: String| s@)),
{
    let ghost views = vars@.map_values(|s: String| s@);
    let mut m: KeyedMap<String> = KeyedMap::new();
    let mut i: usize = 0;
    while i < vars.len()
        invariant
            i <= vars@.len(),
            views == vars@.map_values(|s: String| s@),
            m@ == workflow_vars(views.take(i as int)),
        decreases vars@.len() - i,
    {
        assert(views.take(i + 1).drop_last() =~= views.take(i as int));
        assert(views.take(i + 1).last() == vars@[i as int]@);
        match split_at_eq(vars[i].as_str()) {
            Some((k, v)) => {
                m.insert(k, v);
            },
            None => {},
        }
        i = i + 1;
    }
    assert(views.take(vars@.len() as int) =~= views);
    m
}

/// How far back a usage report looks, in seconds, for the periods it
/// knows: one hour, a day, a week, thirty days.
pub open spec fn period_span(period: Seq<char>) -> Option<i64> {
    if period == "1h"@ {
        Some(3600)
    } else if period == "24h"@ {
        Some(86400)
    } else if period == "7d"@ {
        Some(604800)
    } else if period == "30d"@ {
        Some(2592000)
    } else {
        None
    }
}

/// The length in seconds of a report period, or `None` for an unknown one.
pub fn period_seconds(period: &str) -> (r: Option<i64>)
    ensures
        r == period_span(period@),
{
    if str_eq(period, "1h") {
        Some(3600)
    } else if str_eq(period, "24h") {
        Some(86400)
    } else if str_eq(period, "7d") {
        Some(604800)
    } else if str_eq(period, "30d") {
        Some(2592000)
    } else {
        None
    }
}

/// What a sandboxed command printed and whether it succeeded.
#[derive(Debug)]
pub struct CommandOutcome {
    pub stdout: String,
    pub stderr: String,
    pub success: bool,
}

/// The tool a shell command runs: its first word, or the whole command
/// when it has no word.
pub open spec fn command_tool_of(command: Seq<char>) -> Seq<char> {
    let start = trim_start_len(command);
    if start == command.len() {
        command
    } else {
        command.subrange(start, word_end(command, start))
    }
}

/// The number of leading white-space characters.
pub open spec fn trim_start_len(s: Seq<char>) -> int
    decreases s.len(),
{
    if s.len() > 0 && is_white_space(s[0]) {
        1 + trim_start_len(s.drop_first())
    } else {
        0
    }
}

/// Where the word starting at `start` ends: at the next white space or at
/// the end.
pub open spec fn word_end(s: Seq<char>, start: int) -> int
    decreases s.len() - start,
{
    if start >= s.len() || is_white_space(s[start]) {
        start
    } else {
        word_end(s, start + 1)
    }
}

proof fn lemma_trim_start_len(s: Seq<char>)
    ensures
        0 <= trim_start_len(s) <= s.len(),
        forall|j: int| 0 <= j < trim_start_len(s) ==> is_white_space(#[trigger] s[j]),
        trim_start_len(s) < s.len() ==> !is_white_space(s[trim_start_len(s)]),
    decreases s.len(),
{
    if s.len() > 0 && is_white_space(s[0]) {
        lemma_trim_start_len(s.drop_first());
        assert forall|j: int| 0 <= j < trim_start_len(s) implies is_white_space(#[trigger] s[j]) by {
            if j > 0 {
                assert(s[j] == s.drop_first()[j - 1]);
            }
        }
    }
}

/// The tool a shell command runs.
pub fn command_tool(command: &str) -> (r: String)
    ensures
        r@ == command_tool_of(command@),
{
    let chars = chars_of(command);
    let mut start: usize = 0;
    proof {
        lemma_trim_start_len(command@);
    }
    while start < chars.len() && is_space(chars[start])
        invariant
            chars@ == command@,
            start <= trim_start_len(command@),
            0 <= trim_start_len(command@) <= command@.len(),
            forall|j: int| 0 <= j < trim_start_len(command@) ==> is_white_space(#[trigger] command@[j]),
            trim_start_len(command@) < command@.len() ==> !is_white_space(command@[trim_start_len(command@)]),
        decreases chars@.len() - start,
    {
        start = start + 1;
    }
    assert(start == trim_start_len(command@));
    if start == chars.len() {
        return owned(command);
    }
    let mut end: usize = start;
    let mut word = String::new();
    while end < chars.len() && !is_space(chars[end])
        invariant
            chars@ == command@,
            start <= end <= chars@.len(),
            word@ == chars@.subrange(start as int, end as int),
            word_end(command@, start as int) == word_end(command@, end as int),
        decreases chars@.len() - end,
    {
        push_char(&mut word, chars[end]);
        end = end + 1;
        assert(word@ =~= chars@.subrange(start as int, end as int));
    }
    word
}

fn is_space(c: char) -> (b: bool)
    ensures
        b == is_white_space(c),
{
    ('\u{9}' <= c && c <= '\u{d}') || c == ' ' || c == '\u{85}' || c == '\u{a0}' || c == '\u{1680}'
        || ('\u{2000}' <= c && c <= '\u{200a}') || c == '\u{2028}' || c == '\u{2029}' || c == '\u{202f}'
        || c == '\u{205f}' || c == '\u{3000}'
}

/// Checks a sandboxed command against the policy: the whole command, with
/// surrounding white space removed, must be a listed tool or start with a
/// listed tool followed by a space (so an entry `git diff` allows
/// `git diff HEAD`). Returns the tool the command runs when it is allowed,
/// else the policy's reason.
pub fn check_tool(engine: &PolicyEngine, command: &str) -> (r: Result<String, AcerError>)
    ensures
        ({
            let invocation = trim_chars(command@);
            let allowed = tool_allowed(engine.rules().allow_tools, invocation);
            &&& allowed ==> (r matches Ok(t) && t@ == command_tool_of(command@))
            &&& !allowed ==> (r matches Err(AcerError::CommandBlocked(m)) && m@ == "Tool '"@ + invocation + "' is not allowed"@)
        }),
{
    let invocation = trim(command);
    let decision = match engine.validate_tool(invocation) {
        Ok(d) => d,
        Err(e) => return Err(e),
    };
    if decision.allowed {
        Ok(command_tool(command))
    } else {
        let reason = match decision.reason {
            Some(m) => m,
            None => owned("Command blocked by policy"),
        };
        Err(AcerError::CommandBlocked(reason))
    }
}

// ----- dashboard ordering ---------------------------------------------------

/// `a` comes no later than `b` in the order of `str`'s comparison: character
/// by character by code point, a prefix first.
pub open spec fn text_le(a: Seq<char>, b: Seq<char>) -> bool
    decreases a.len(),
{
    if a.len() == 0 {
        true
    } else if b.len() == 0 {
        false
    } else if (a[0] as u32) < (b[0] as u32) {
        true
    } else if (a[0] as u32) > (b[0] as u32) {
        false
    } else {
        text_le(a.drop_first(), b.drop_first())
    }
}

/// Any two texts are ordered one way or the other.
pub proof fn lemma_text_le_total(a: Seq<char>, b: Seq<char>)
    ensures
        text_le(a, b) || text_le(b, a),
    decreases a.len(),
{
    if a.len() > 0 && b.len() > 0 && a[0] as u32 == b[0] as u32 {
        lemma_text_le_total(a.drop_first(), b.drop_first());
    }
}

/// The order is transitive.
pub proof fn lemma_text_le_transitive(a: Seq<char>, b: Seq<char>, c: Seq<char>)
    requires
        text_le(a, b),
        text_le(b, c),
    ensures
        text_le(a, c),
    decreases a.len(),
{
    if a.len() > 0 && b.len() > 0 && c.len() > 0 && a[0] as u32 == b[0] as u32 && b[0] as u32 == c[0] as u32 {
        lemma_text_le_transitive(a.drop_first(), b.drop_first(), c.drop_first());
    }
}

fn text_le_exec(a: &Vec<char>, b: &Vec<char>) -> (r: bool)
    ensures
        r == text_le(a@, b@),
{
    let mut k: usize = 0;
    assert(a@.subrange(0, a@.len() as int) =~= a@);
    assert(b@.subrange(0, b@.len() as int) =~= b@);
    while k < a.len() && k < b.len() && (a[k] as u32) == (b[k] as u32)
        invariant
            k <= a@.len(),
            k <= b@.len(),
            text_le(a@, b@) == text_le(a@.subrange(k as int, a@.len() as int), b@.subrange(k as int, b@.len() as int)),
        decreases a@.len() - k,
    {
        let ghost sa = a@.subrange(k as int, a@.len() as int);
        let ghost sb = b@.subrange(k as int, b@.len() as int);
        assert(sa.drop_first() =~= a@.subrange(k + 1, a@.len() as int));
        assert(sb.drop_first() =~= b@.subrange(k + 1, b@.len() as int));
        k = k + 1;
    }
    let ghost sa = a@.subrange(k as int, a@.len() as int);
    let ghost sb = b@.subrange(k as int, b@.len() as int);
    if k == a.len() {
        true
    } else if k == b.len() {
        false
    } else {
        assert(sa[0] == a@[k as int] && sb[0] == b@[k as int]);
        (a[k] as u32) < (b[k] as u32)
    }
}

/// The order in which the dashboard lists entries with these names: the
/// positions of the names, sorted by name, equal names in their original
/// order.
pub fn sorted_order(names: &Vec<String>) -> (order: Vec<usize>)
    ensures
        order@.len() == names@.len(),
        forall|i: int| 0 <= i < order@.len() ==> (#[trigger] order@[i]) < names@.len(),
        forall|i: int, j: int| 0 <= i < j < order@.len() ==> order@[i] != order@[j],
        forall|i: int, j: int| 0 <= i < j < order@.len() ==> text_le(names@[order@[i] as int]@, names@[order@[j] as int]@),
        forall|i: int, j: int| 0 <= i < j < order@.len() && names@[order@[i] as int]@ == names@[order@[j] as int]@
            ==> order@[i] < order@[j],
{
    let mut keys: Vec<Vec<char>> = Vec::new();
    for n in 0..names.len()
        invariant
            keys@.len() == n,
            forall|i: int| 0 <= i < n ==> (#[trigger] keys@[i])@ == names@[i]@,
    {
        keys.push(chars_of(names[n].as_str()));
    }
    let ghost ks = names@.map_values(|s: String| s@);
    assert forall|i: int| 0 <= i < names@.len() implies (#[trigger] keys@[i])@ == ks[i] by {}
    let mut order: Vec<usize> = Vec::new();
    for n in 0..names.len()
        invariant
            keys@.len() == names@.len(),
            ks == names@.map_values(|s: String| s@),
            forall|i: int| 0 <= i < names@.len() ==> (#[trigger] keys@[i])@ == ks[i],
            order@.len() == n,
            forall|i: int| 0 <= i < order@.len() ==> (#[trigger] order@[i]) < n,
            forall|i: int, j: int| 0 <= i < j < order@.len() ==> order@[i] != order@[j],
            forall|i: int, j: int| 0 <= i < j < order@.len() ==> text_le(ks[order@[i] as int], ks[order@[j] as int]),
            forall|i: int, j: int| 0 <= i < j < order@.len() && ks[order@[i] as int] == ks[order@[j] as int]
                ==> order@[i] < order@[j],
    {
        let mut p: usize = order.len();
        while p > 0 && !text_le_exec(&keys[order[p - 1]], &keys[n])
            invariant
                keys@.len() == names@.len(),
                forall|i: int| 0 <= i < names@.len() ==> (#[trigger] keys@[i])@ == ks[i],
                n < names@.len(),
                p <= order@.len(),
                order@.len() == n,
                forall|i: int| 0 <= i < order@.len() ==> (#[trigger] order@[i]) < n,
                forall|q: int| p <= q < order@.len() ==> !text_le(ks[(#[trigger] order@[q]) as int], ks[n as int]),
            decreases p,
        {
            p = p - 1;
        }
        proof {
            assert forall|q: int| p <= q < order@.len() implies text_le(ks[n as int], ks[(#[trigger] order@[q]) as int]) by {
                lemma_text_le_total(ks[n as int], ks[order@[q] as int]);
            }
            if p > 0 {
                assert(text_le(ks[order@[p - 1] as int], ks[n as int]));
                assert forall|q: int| 0 <= q < p implies text_le(ks[(#[trigger] order@[q]) as int], ks[n as int]) by {
                    if q < p - 1 {
                        lemma_text_le_transitive(ks[order@[q] as int], ks[order@[p - 1] as int], ks[n as int]);
                    }
                }
            }
        }
        let ghost before = order@;
        order.insert(p, n);
        proof {
            let after = order@;
            assert(after =~= before.insert(p as int, n));
            assert forall|i: int| 0 <= i < after.len() implies (#[trigger] after[i]) < n + 1 by {
                if i < p {
                    assert(after[i] == before[i]);
                } else if i > p {
                    assert(after[i] == before[i - 1]);
                }
            }
            assert forall|i: int, j: int| 0 <= i < j < after.len() implies after[i] != after[j]
                && text_le(ks[after[i] as int], ks[after[j] as int])
                && (ks[after[i] as int] == ks[after[j] as int] ==> after[i] < after[j]) by {
                let bi = if i < p { i } else { i - 1 };
                let bj = if j < p { j } else { j - 1 };
                if i < p {
                    assert(after[i] == before[i]);
                } else if i > p {
                    assert(after[i] == before[i - 1]);
                }
                if j < p {
                    assert(after[j] == before[j]);
                } else if j > p {
                    assert(after[j] == before[j - 1]);
                }
                if i == p {
                    assert(after[i] == n);
                    assert(p <= bj < before.len());
                    assert(!text_le(ks[before[bj] as int], ks[n as int]));
                } else if j == p {
                    assert(after[j] == n);
                    assert(0 <= bi < p);
                }
            }
        }
    }
    order
}

// ----- logs and dashboard lines -------------------------------------------

/// Whether a traced run is listed by the logs command: its model contains
/// the model filter, its provider is the provider filter, and it failed when
/// only errors are asked for.
pub open spec fn run_listed(
    model: Seq<char>,
    provider: Seq<char>,
    success: bool,
    model_filter: Option<Seq<char>>,
    provider_filter: Option<Seq<char>>,
    errors_only: bool,
) -> bool {
    &&& (model_filter matches Some(m) ==> contains_chars(model, m))
    &&& (provider_filter matches Some(p) ==> provider == p)
    &&& !(errors_only && success)
}

/// The view of an optional string slice.
pub open spec fn opt_str_view(s: Option<&str>) -> Option<Seq<char>> {
    match s {
        Some(v) => Some(v@),
        None => None,
    }
}

/// Whether the logs command lists a run with this model, provider name and
/// outcome.
pub fn run_is_listed(
    model: &str,
    provider: &str,
    success: bool,
    model_filter: Option<&str>,
    provider_filter: Option<&str>,
    errors_only: bool,
) -> (b: bool)
    ensures
        b == run_listed(model@, provider@, success, opt_str_view(model_filter), opt_str_view(provider_filter), errors_only),
{
    if let Some(m) = model_filter {
        if !str_contains(model, m) {
            return false;
        }
    }
    if let Some(p) = provider_filter {
        if !str_eq(provider, p) {
            return false;
        }
    }
    !(errors_only && success)
}

/// The first `n` characters of `s` (all of it when shorter).
pub fn prefix_chars(s: &str, n: usize) -> (r: String)
    ensures
        r@ == s@.take(if n < s@.len() { n as int } else { s@.len() as int }),
{
    let chars = chars_of(s);
    let end = if n < chars.len() { n } else { chars.len() };
    let mut r = String::new();
    let mut i: usize = 0;
    while i < end
        invariant
            chars@ == s@,
            end <= chars@.len(),
            i <= end,
            r@ == chars@.take(i as int),
        decreases end - i,
    {
        push_char(&mut r, chars[i]);
        i = i + 1;
        assert(r@ =~= chars@.take(i as int));
    }
    r
}

/// The items joined by `, `, or `empty` when there are none.
pub open spec fn listing(items: Seq<Seq<char>>, empty: Seq<char>) -> Seq<char> {
    if items.len() == 0 {
        empty
    } else {
        joined(items)
    }
}

/// The items joined by `, `.
pub open spec fn joined(items: Seq<Seq<char>>) -> Seq<char>
    decreases items.len(),
{
    if items.len() == 0 {
        Seq::empty()
    } else if items.len() == 1 {
        items[0]
    } else {
        joined(items.drop_last()) + ", "@ + items.last()
    }
}

/// The items joined by `, `, or `empty` when there are none, as the
/// dashboard lists allowed tools and blocked patterns.
pub fn list_or(items: &Vec<String>, empty: &str) -> (r: String)
    ensures
        r@ == listing(strings_view(items@), empty@),
{
    let ghost views = strings_view(items@);
    if items.len() == 0 {
        return owned(empty);
    }
    let mut r = items[0].clone();
    let mut i: usize = 1;
    assert(views.take(1).drop_last() =~= Seq::<Seq<char>>::empty());
    while i < items.len()
        invariant
            1 <= i <= items@.len(),
            views == strings_view(items@),
            r@ == joined(views.take(i as int)),
        decreases items@.len() - i,
    {
        assert(views.take(i + 1).drop_last() =~= views.take(i as int));
        r.append(", ");
        r.append(items[i].as_str());
        i = i + 1;
    }
    assert(views.take(items@.len() as int) =~= views);
    r
}

/// The dashboard's status line after a refresh.
pub fn refresh_status(issues: usize, runs: usize, models: usize, plugins: usize) -> (s: String)
    ensures
        s@ == "Ready. "@ + decimal(issues as nat) + " issues, "@ + decimal(runs as nat) + " runs, "@
            + decimal(models as nat) + " models, "@ + decimal(plugins as nat) + " plugins."@,
{
    let mut s = String::from_str("Ready. ");
    s.append(decimal_string(issues as u64).as_str());
    s.append(" issues, ");
    s.append(decimal_string(runs as u64).as_str());
    s.append(" runs, ");
    s.append(decimal_string(models as u64).as_str());
    s.append(" models, ");
    s.append(decimal_string(plugins as u64).as_str());
    s.append(" plugins.");
    s
}

} // verus!

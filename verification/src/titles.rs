//! How a window's title is shown: rewritten by the rule for its application,
//! or as it is.
use vstd::prelude::*;

use crate::patterns::{regex_captures, regex_compiles, regex_group_names, named_captures, Pattern};
use crate::settings::{opt_view, Settings, TitleFormatRule};
use crate::strmap::StrMap;
use crate::text::{chars_of, string_of};

verus! {

broadcast use vstd::string::group_string_axioms;

/// Splits a terminal title into its working directory and the command run
/// in it.
pub const TERMINAL_PATTERN: &'static str = r"^(?P<cwd>.+?)(?:(?:\s-\s|>\s?)(?P<cmd>.+))?$";

pub const TERMINAL_FORMAT: &'static str = "<i>{{ cwd | shorten_home }}</i>{% if cmd %} · {{ cmd }}{% endif %}";

/// "Page · Site — Mozilla Firefox" or "Page — Mozilla Firefox".
pub const FIREFOX_PATTERN: &'static str = r"^(?P<page>.+?)(?:\s·\s(?P<site>.+?))?\s—\s.+$";

pub const FIREFOX_FORMAT: &'static str = "{% if site %}<i>{{ site }}</i> · {% endif %}{{ page }}";

/// "Page Title - Browser Name".
pub const CHROMIUM_PATTERN: &'static str = r"^(?P<page>.+?)(?:\s-\s(?P<site>.+))?$";

pub const CHROMIUM_FORMAT: &'static str = "{{ page }}{% if site %} <span alpha='60%'>— {{ site }}</span>{% endif %}";

/// "filename - Editor Name" or "filename · Editor Name".
pub const EDITOR_PATTERN: &'static str = r"^(?P<file>.+?)(?:\s[-·]\s(?P<editor>.+))?$";

pub const EDITOR_FORMAT: &'static str = "<b>{{ file | basename }}</b>{% if editor %} <span alpha='60%'>— {{ editor }}</span>{% endif %}";

/// A rule as the pattern's text, the template and whether the process
/// table is read.
pub open spec fn rule_view(r: TitleFormatRule) -> (Seq<char>, Seq<char>, bool) {
    (r.pattern.source()@, r.format@, r.poll_proc)
}

/// The rules after adding one for `id`, where its pattern compiles.
pub open spec fn with_rule(
    m: Map<Seq<char>, (Seq<char>, Seq<char>, bool)>,
    id: &str,
    pattern: &str,
    format: &str,
    poll: bool,
) -> Map<Seq<char>, (Seq<char>, Seq<char>, bool)> {
    if regex_compiles(pattern@) {
        m.insert(id@, (pattern@, format@, poll))
    } else {
        m
    }
}

/// The built-in title rules: terminals, whose foreground process is read
/// (but for kitty, which shares one process between windows), browsers and
/// editors.
pub open spec fn default_rules_view() -> Map<Seq<char>, (Seq<char>, Seq<char>, bool)> {
    let m = Map::empty();
    let m = with_rule(m, "foot", TERMINAL_PATTERN, TERMINAL_FORMAT, true);
    let m = with_rule(m, "Alacritty", TERMINAL_PATTERN, TERMINAL_FORMAT, true);
    let m = with_rule(m, "kitty", TERMINAL_PATTERN, TERMINAL_FORMAT, false);
    let m = with_rule(m, "wezterm", TERMINAL_PATTERN, TERMINAL_FORMAT, true);
    let m = with_rule(m, "ghostty", TERMINAL_PATTERN, TERMINAL_FORMAT, true);
    let m = with_rule(m, "org.wezfurlong.wezterm", TERMINAL_PATTERN, TERMINAL_FORMAT, true);
    let m = with_rule(m, "firefox", FIREFOX_PATTERN, FIREFOX_FORMAT, false);
    let m = with_rule(m, "chromium-browser", CHROMIUM_PATTERN, CHROMIUM_FORMAT, false);
    let m = with_rule(m, "google-chrome", CHROMIUM_PATTERN, CHROMIUM_FORMAT, false);
    let m = with_rule(m, "brave-browser", CHROMIUM_PATTERN, CHROMIUM_FORMAT, false);
    let m = with_rule(m, "code", EDITOR_PATTERN, EDITOR_FORMAT, false);
    let m = with_rule(m, "Code", EDITOR_PATTERN, EDITOR_FORMAT, false);
    let m = with_rule(m, "codium", EDITOR_PATTERN, EDITOR_FORMAT, false);
    with_rule(m, "zed", EDITOR_PATTERN, EDITOR_FORMAT, false)
}

fn add_rule(m: &mut StrMap<TitleFormatRule>, id: &str, pattern: &str, format: &str, poll: bool)
    ensures
        final(m)@.map_values(|r: TitleFormatRule| rule_view(r)) == with_rule(
            old(m)@.map_values(|r: TitleFormatRule| rule_view(r)),
            id,
            pattern,
            format,
            poll,
        ),
{
    match Pattern::new(pattern) {
        Ok(p) => {
            let rule = TitleFormatRule { pattern: p, format: format.to_string(), poll_proc: poll };
            let ghost rv = rule_view(rule);
            m.insert(id.to_string(), rule);
            proof {
                assert(final(m)@.map_values(|r: TitleFormatRule| rule_view(r)) =~= old(m)@.map_values(
                    |r: TitleFormatRule| rule_view(r),
                ).insert(id@, rv));
            }
        },
        Err(_) => {},
    }
}

/// The built-in title rules by application id. The built-in patterns are
/// constants that compile (the tests check each); since this library does
/// not panic, a rule whose pattern did not compile would be left out rather
/// than stop the module.
pub fn default_rules() -> (m: StrMap<TitleFormatRule>)
    ensures
        m@.map_values(|r: TitleFormatRule| rule_view(r)) == default_rules_view(),
{
    let mut m: StrMap<TitleFormatRule> = StrMap::new();
    proof {
        assert(m@.map_values(|r: TitleFormatRule| rule_view(r)) =~= Map::empty());
    }
    add_rule(&mut m, "foot", TERMINAL_PATTERN, TERMINAL_FORMAT, true);
    add_rule(&mut m, "Alacritty", TERMINAL_PATTERN, TERMINAL_FORMAT, true);
    add_rule(&mut m, "kitty", TERMINAL_PATTERN, TERMINAL_FORMAT, false);
    add_rule(&mut m, "wezterm", TERMINAL_PATTERN, TERMINAL_FORMAT, true);
    add_rule(&mut m, "ghostty", TERMINAL_PATTERN, TERMINAL_FORMAT, true);
    add_rule(&mut m, "org.wezfurlong.wezterm", TERMINAL_PATTERN, TERMINAL_FORMAT, true);
    add_rule(&mut m, "firefox", FIREFOX_PATTERN, FIREFOX_FORMAT, false);
    add_rule(&mut m, "chromium-browser", CHROMIUM_PATTERN, CHROMIUM_FORMAT, false);
    add_rule(&mut m, "google-chrome", CHROMIUM_PATTERN, CHROMIUM_FORMAT, false);
    add_rule(&mut m, "brave-browser", CHROMIUM_PATTERN, CHROMIUM_FORMAT, false);
    add_rule(&mut m, "code", EDITOR_PATTERN, EDITOR_FORMAT, false);
    add_rule(&mut m, "Code", EDITOR_PATTERN, EDITOR_FORMAT, false);
    add_rule(&mut m, "codium", EDITOR_PATTERN, EDITOR_FORMAT, false);
    add_rule(&mut m, "zed", EDITOR_PATTERN, EDITOR_FORMAT, false);
    m
}

/// The position of the last `/` in `p`, or -1 where it has none.
pub open spec fn last_slash(p: Seq<char>) -> int
    decreases p.len(),
{
    if p.len() == 0 {
        -1
    } else if p.last() == '/' {
        p.len() - 1
    } else {
        last_slash(p.drop_last())
    }
}

/// The file name of `path` as `std::path::Path::file_name` gives it on a
/// Unix path: the last `/`-separated component, where trailing separators
/// and `.` components count for nothing; nothing when the path has no
/// component left or ends in `..`.
pub open spec fn file_name_of(path: Seq<char>) -> Option<Seq<char>>
    decreases path.len(),
{
    let j = last_slash(path);
    let seg = path.subrange(j + 1, path.len() as int);
    if seg.len() == 0 || seg == seq!['.'] {
        if j < 0 {
            None
        } else {
            proof {
                lemma_last_slash(path);
            }
            file_name_of(path.subrange(0, j))
        }
    } else if seg == seq!['.', '.'] {
        None
    } else {
        Some(seg)
    }
}

/// Where the last `/` of `p` stands.
pub proof fn lemma_last_slash(p: Seq<char>)
    ensures
        -1 <= last_slash(p) < p.len(),
        last_slash(p) >= 0 ==> p[last_slash(p)] == '/',
        forall|k: int| last_slash(p) < k < p.len() ==> p[k] != '/',
    decreases p.len(),
{
    if p.len() > 0 && p.last() != '/' {
        let d = p.drop_last();
        lemma_last_slash(d);
        assert forall|k: int| last_slash(p) < k < p.len() implies p[k] != '/' by {
            if k < p.len() - 1 {
                assert(p[k] == d[k]);
            }
        }
    }
}

fn last_slash_exec(p: &Vec<char>, e: usize) -> (r: Option<usize>)
    requires
        e <= p@.len(),
    ensures
        match r {
            Some(j) => j < e && last_slash(p@.subrange(0, e as int)) == j,
            None => last_slash(p@.subrange(0, e as int)) == -1,
        },
{
    let mut i: usize = e;
    while i > 0
        invariant
            i <= e <= p@.len(),
            last_slash(p@.subrange(0, e as int)) == last_slash(p@.subrange(0, i as int)),
        decreases i,
    {
        if p[i - 1] == '/' {
            return Some(i - 1);
        }
        proof {
            assert(p@.subrange(0, i as int).drop_last() =~= p@.subrange(0, i - 1));
        }
        i = i - 1;
    }
    None
}

/// The bounds in `p` of the file name of its first `e` characters.
fn file_name_bounds(p: &Vec<char>, e: usize) -> (r: Option<(usize, usize)>)
    requires
        e <= p@.len(),
    ensures
        match r {
            Some((a, b)) => a <= b <= e && file_name_of(p@.subrange(0, e as int)) == Some(
                p@.subrange(a as int, b as int),
            ),
            None => file_name_of(p@.subrange(0, e as int)) is None,
        },
    decreases e,
{
    let q = Ghost(p@.subrange(0, e as int));
    proof {
        lemma_last_slash(q@);
    }
    let j = last_slash_exec(p, e);
    let start: usize = match j {
        Some(j) => j + 1,
        None => 0,
    };
    proof {
        assert(q@.subrange(start as int, e as int) =~= p@.subrange(start as int, e as int));
    }
    let len = e - start;
    if len == 0 || (len == 1 && p[start] == '.') {
        proof {
            if len == 1 {
                assert(p@.subrange(start as int, e as int) =~= seq!['.']);
            }
        }
        match j {
            None => None,
            Some(j) => {
                proof {
                    assert(q@.subrange(0, j as int) =~= p@.subrange(0, j as int));
                }
                file_name_bounds(p, j)
            },
        }
    } else if len == 2 && p[start] == '.' && p[start + 1] == '.' {
        proof {
            assert(p@.subrange(start as int, e as int) =~= seq!['.', '.']);
        }
        None
    } else {
        proof {
            if len == 1 {
                assert(p@.subrange(start as int, e as int)[0] != '.');
            }
            if len == 2 {
                assert(p@.subrange(start as int, e as int)[0] != '.' || p@.subrange(start as int, e as int)[1]
                    != '.');
            }
        }
        Some((start, e))
    }
}

/// The last component of `path`, or `path` itself where it has none.
pub fn basename(path: &str) -> (r: String)
    ensures
        r@ == match file_name_of(path@) {
            Some(n) => n,
            None => path@,
        },
{
    let p = chars_of(path);
    proof {
        assert(p@.subrange(0, p@.len() as int) =~= p@);
    }
    match file_name_bounds(&p, p.len()) {
        Some((a, b)) => {
            let mut name: Vec<char> = Vec::new();
            let mut i: usize = a;
            while i < b
                invariant
                    a <= i <= b <= p@.len(),
                    name@ == p@.subrange(a as int, i as int),
                decreases b - i,
            {
                name.push(p[i]);
                proof {
                    assert(name@ =~= p@.subrange(a as int, i + 1));
                }
                i = i + 1;
            }
            string_of(&name)
        },
        None => path.to_string(),
    }
}

/// `path` with the home directory at its start written as `~`.
pub open spec fn home_shortened(path: Seq<char>, home: Option<Seq<char>>) -> Seq<char> {
    match home {
        Some(h) => if h.len() <= path.len() && path.subrange(0, h.len() as int) == h {
            seq!['~'] + path.subrange(h.len() as int, path.len() as int)
        } else {
            path
        },
        None => path,
    }
}

/// Writes the home directory at the start of `path` as `~`.
pub fn shorten_home(path: &str, home: &Option<String>) -> (r: String)
    ensures
        r@ == home_shortened(path@, home.deep_view()),
{
    let p = chars_of(path);
    match home {
        None => path.to_string(),
        Some(h) => {
            let hv = chars_of(h.as_str());
            if hv.len() > p.len() {
                return path.to_string();
            }
            let mut i: usize = 0;
            while i < hv.len()
                invariant
                    i <= hv@.len(),
                    hv@.len() <= p@.len(),
                    p@ == path@,
                    hv@ == h@,
                    home.deep_view() == Some(h@),
                    forall|k: int| 0 <= k < i ==> p@[k] == hv@[k],
                decreases hv@.len() - i,
            {
                if p[i] != hv[i] {
                    proof {
                        assert(p@.subrange(0, hv@.len() as int)[i as int] != hv@[i as int]);
                    }
                    return path.to_string();
                }
                i = i + 1;
            }
            proof {
                assert(p@.subrange(0, hv@.len() as int) =~= hv@);
            }
            let mut out: Vec<char> = vec!['~'];
            let mut j: usize = hv.len();
            while j < p.len()
                invariant
                    hv@.len() <= j <= p@.len(),
                    out@ == seq!['~'] + p@.subrange(hv@.len() as int, j as int),
                decreases p@.len() - j,
            {
                out.push(p[j]);
                proof {
                    assert(p@.subrange(hv@.len() as int, j + 1) =~= p@.subrange(
                        hv@.len() as int,
                        j as int,
                    ).push(p@[j as int]));
                }
                j = j + 1;
            }
            string_of(&out)
        },
    }
}

/// What `minijinja` renders from the template `format`, with each capture a
/// variable, HTML escaping on, and the filters `basename` and `shorten_home`
/// of this module; nothing where rendering fails.
pub uninterp spec fn rendered_title(
    format: Seq<char>,
    captures: Seq<(Seq<char>, Seq<char>)>,
    home: Option<Seq<char>>,
) -> Option<Seq<char>>;

/// Renders `format` with `minijinja::Environment::render_str`, whose result
/// is a function of the template and the variables alone and is named
/// `rendered_title`.
#[verifier::external_body]
fn render_template(format: &str, captures: &Vec<(String, String)>, home: &Option<String>) -> (r:
    Option<String>)
    ensures
        r.deep_view() == rendered_title(
            format@,
            captures@.map_values(|p: (String, String)| (p.0@, p.1@)),
            home.deep_view(),
        ),
{
    let mut env = minijinja::Environment::new();
    env.set_auto_escape_callback(|_| minijinja::AutoEscape::Html);
    env.add_filter("basename", |p: String| basename(&p));
    let home_dir = home.clone();
    env.add_filter("shorten_home", move |p: String| shorten_home(&p, &home_dir));
    let ctx: minijinja::Value = captures.iter().map(|(k, v)| (k.clone(), v.clone())).collect();
    env.render_str(format, ctx).ok()
}

/// Renders the template of `rule` with the given variables.
pub fn render_with_rule(rule: &TitleFormatRule, captures: &Vec<(String, String)>, home: &Option<String>) -> (r:
    Option<String>)
    ensures
        r.deep_view() == rendered_title(
            rule.format@,
            captures@.map_values(|p: (String, String)| (p.0@, p.1@)),
            home.deep_view(),
        ),
{
    render_template(rule.format.as_str(), captures, home)
}

/// What a title label shows next.
pub enum LabelUpdate {
    /// Markup rendered by a title rule.
    Markup(String),
    Text(String),
    /// Empty and hidden.
    Hide,
    Keep,
}

/// The title with line breaks as spaces, unless they are allowed.
pub open spec fn flattened(title: Seq<char>, allow_linebreaks: bool) -> Seq<char> {
    if allow_linebreaks {
        title
    } else {
        title.map_values(|c: char| if c == '\n' || c == '\r' { ' ' } else { c })
    }
}

/// The markup the rule for `app_id` renders from `title`, if a rule applies,
/// its pattern matches and rendering succeeds.
pub open spec fn rule_markup(
    s: Settings,
    app_id: Option<Seq<char>>,
    title: Seq<char>,
    home: Option<Seq<char>>,
) -> Option<Seq<char>> {
    match app_id {
        Some(id) => if s.title_format.enabled && s.title_format.rules@.contains_key(id) {
            let rule = s.title_format.rules@[id];
            match regex_captures(rule.pattern.source()@, title) {
                Some(g) => rendered_title(
                    rule.format@,
                    named_captures(regex_group_names(rule.pattern.source()@), g),
                    home,
                ),
                None => None,
            }
        } else {
            None
        },
        None => None,
    }
}

/// What the label of a window shows for a new title.
pub open spec fn title_label(
    s: Settings,
    app_id: Option<Seq<char>>,
    display_titles: bool,
    title: Option<Seq<char>>,
    home: Option<Seq<char>>,
) -> LabelUpdateView {
    match title {
        Some(t) => match rule_markup(s, app_id, t, home) {
            Some(m) => LabelUpdateView::Markup(m),
            None => if display_titles {
                LabelUpdateView::Text(flattened(t, s.title_display.allow_title_linebreaks))
            } else {
                LabelUpdateView::Keep
            },
        },
        None => if display_titles {
            LabelUpdateView::Hide
        } else {
            LabelUpdateView::Keep
        },
    }
}

/// A label update with its text as characters.
pub enum LabelUpdateView {
    Markup(Seq<char>),
    Text(Seq<char>),
    Hide,
    Keep,
}

impl LabelUpdate {
    pub open spec fn view_of(self) -> LabelUpdateView {
        match self {
            LabelUpdate::Markup(m) => LabelUpdateView::Markup(m@),
            LabelUpdate::Text(t) => LabelUpdateView::Text(t@),
            LabelUpdate::Hide => LabelUpdateView::Hide,
            LabelUpdate::Keep => LabelUpdateView::Keep,
        }
    }
}

fn flatten_title(title: &str, allow_linebreaks: bool) -> (r: String)
    ensures
        r@ == flattened(title@, allow_linebreaks),
{
    if allow_linebreaks {
        return title.to_string();
    }
    let v = chars_of(title);
    let mut out: Vec<char> = Vec::new();
    let mut i: usize = 0;
    while i < v.len()
        invariant
            i <= v@.len(),
            v@ == title@,
            out@ == v@.take(i as int).map_values(
                |c: char| if c == '\n' || c == '\r' { ' ' } else { c },
            ),
        decreases v@.len() - i,
    {
        let c = v[i];
        out.push(if c == '\n' || c == '\r' { ' ' } else { c });
        proof {
            assert(v@.take(i + 1) =~= v@.take(i as int).push(c));
            assert(out@ =~= v@.take(i + 1).map_values(
                |c: char| if c == '\n' || c == '\r' { ' ' } else { c },
            ));
        }
        i = i + 1;
    }
    proof {
        assert(v@.take(v@.len() as int) =~= v@);
    }
    string_of(&out)
}

fn rule_markup_exec(settings: &Settings, app_id: Option<&str>, title: &str, home: &Option<String>) -> (r:
    Option<String>)
    ensures
        r.deep_view() == rule_markup(*settings, opt_view(app_id), title@, home.deep_view()),
{
    let id = match app_id {
        Some(id) => id,
        None => {
            return None;
        },
    };
    let rule = match settings.title_format_rule(id) {
        Some(rule) => rule,
        None => {
            return None;
        },
    };
    match rule.pattern.captures(title) {
        Some(caps) => render_with_rule(rule, &caps, home),
        None => None,
    }
}

/// What the label shows for a new title: the markup of the application's
/// title rule where one applies and renders, else the title itself where
/// titles are shown, or an empty hidden label where there is no title.
pub fn update_title(settings: &Settings, app_id: Option<&str>, display_titles: bool, title: Option<&str>, home: &Option<String>) -> (r:
    LabelUpdate)
    ensures
        r.view_of() == title_label(*settings, opt_view(app_id), display_titles, opt_view(title), home.deep_view()),
{
    match title {
        Some(t) => match rule_markup_exec(settings, app_id, t, home) {
            Some(m) => LabelUpdate::Markup(m),
            None => if display_titles {
                LabelUpdate::Text(flatten_title(t, settings.title_display.allow_title_linebreaks))
            } else {
                LabelUpdate::Keep
            },
        },
        None => if display_titles {
            LabelUpdate::Hide
        } else {
            LabelUpdate::Keep
        },
    }
}

/// The variables a terminal's foreground process gives a title rule, in
/// order of name.
pub open spec fn process_captures(cwd: Option<Seq<char>>, command: Option<Seq<char>>) -> Seq<(Seq<char>, Seq<char>)> {
    let a: Seq<(Seq<char>, Seq<char>)> = match command {
        Some(c) => seq![("cmd"@, c)],
        None => Seq::empty(),
    };
    match cwd {
        Some(d) => a.push(("cwd"@, d)),
        None => a,
    }
}

/// What the label shows once the foreground process of a terminal is known:
/// the rule's markup from its directory and command, else the stored title.
pub open spec fn process_label(
    s: Settings,
    app_id: Option<Seq<char>>,
    display_titles: bool,
    cwd: Option<Seq<char>>,
    command: Option<Seq<char>>,
    stored: Option<Seq<char>>,
    home: Option<Seq<char>>,
) -> LabelUpdateView {
    let fallback = LabelUpdateView::Text(stored.unwrap_or(Seq::empty()));
    if !display_titles {
        LabelUpdateView::Keep
    } else {
        match app_id {
            Some(id) => if s.title_format.enabled && s.title_format.rules@.contains_key(id) {
                let caps = process_captures(cwd, command);
                if caps.len() == 0 {
                    fallback
                } else {
                    match rendered_title(s.title_format.rules@[id].format@, caps, home) {
                        Some(m) => LabelUpdateView::Markup(m),
                        None => fallback,
                    }
                }
            } else {
                fallback
            },
            None => fallback,
        }
    }
}

/// What the label shows once the foreground process of a terminal is known.
pub fn update_process_info(
    settings: &Settings,
    app_id: Option<&str>,
    display_titles: bool,
    cwd: Option<&str>,
    command: Option<&str>,
    stored: &Option<String>,
    home: &Option<String>,
) -> (r: LabelUpdate)
    ensures
        r.view_of() == process_label(
            *settings,
            opt_view(app_id),
            display_titles,
            opt_view(cwd),
            opt_view(command),
            stored.deep_view(),
            home.deep_view(),
        ),
{
    if !display_titles {
        return LabelUpdate::Keep;
    }
    let fallback = match stored {
        Some(t) => t.clone(),
        None => String::new(),
    };
    let rule = match app_id {
        Some(id) => settings.title_format_rule(id),
        None => None,
    };
    if let Some(rule) = rule {
        proof {
            reveal_strlit("cmd");
            reveal_strlit("cwd");
        }
        let mut caps: Vec<(String, String)> = Vec::new();
        if let Some(c) = command {
            caps.push(("cmd".to_string(), c.to_string()));
        }
        if let Some(d) = cwd {
            caps.push(("cwd".to_string(), d.to_string()));
        }
        proof {
            assert(caps@.map_values(|p: (String, String)| (p.0@, p.1@)) =~= process_captures(
                opt_view(cwd),
                opt_view(command),
            ));
        }
        if caps.len() == 0 {
            return LabelUpdate::Text(fallback);
        }
        if let Some(m) = render_with_rule(rule, &caps, home) {
            return LabelUpdate::Markup(m);
        }
    }
    LabelUpdate::Text(fallback)
}


/// The rules after laying the user's rules, in order, over the built-in
/// ones.
pub open spec fn merged_rules_view(user: Seq<(String, TitleFormatRule)>) -> Map<Seq<char>, (Seq<char>, Seq<char>, bool)>
    decreases user.len(),
{
    if user.len() == 0 {
        default_rules_view()
    } else {
        merged_rules_view(user.drop_last()).insert(user.last().0@, rule_view(user.last().1))
    }
}

/// The title rules in effect: the built-in ones, with each rule the user
/// names laid over them, so that naming one keeps the others.
pub fn merge_rules(user: Vec<(String, TitleFormatRule)>) -> (m: StrMap<TitleFormatRule>)
    ensures
        m@.map_values(|r: TitleFormatRule| rule_view(r)) == merged_rules_view(user@),
{
    let mut m = default_rules();
    let ghost all = user@;
    let n = user.len();
    let mut rest = user;
    let mut i: usize = 0;
    proof {
        assert(all.subrange(0, all.len() as int) =~= all);
        assert(all.take(0) =~= Seq::<(String, TitleFormatRule)>::empty());
    }
    while rest.len() > 0
        invariant
            i + rest@.len() == all.len(),
            all.len() == n,
            rest@ == all.subrange(i as int, all.len() as int),
            m@.map_values(|r: TitleFormatRule| rule_view(r)) == merged_rules_view(all.take(i as int)),
        decreases rest@.len(),
    {
        let (k, v) = rest.remove(0);
        let ghost rv = rule_view(v);
        let ghost kv = k@;
        let ghost before = m@;
        m.insert(k, v);
        proof {
            assert(all.take(i + 1).drop_last() =~= all.take(i as int));
            assert(all[i as int] == all.subrange(i as int, all.len() as int)[0]);
            assert(m@.map_values(|r: TitleFormatRule| rule_view(r)) =~= before.map_values(
                |r: TitleFormatRule| rule_view(r),
            ).insert(kv, rv));
            assert(rest@ =~= all.subrange(i + 1, all.len() as int));
        }
        i = i + 1;
    }
    proof {
        assert(all.take(all.len() as int) =~= all);
    }
    m
}

/// A built-in rule the user does not name stays in effect.
pub proof fn law_unnamed_builtin_rules_stay(user: Seq<(String, TitleFormatRule)>, id: Seq<char>)
    requires
        forall|i: int| 0 <= i < user.len() ==> (#[trigger] user[i]).0@ != id,
    ensures
        merged_rules_view(user).contains_key(id) == default_rules_view().contains_key(id),
        default_rules_view().contains_key(id) ==> merged_rules_view(user)[id] == default_rules_view()[id],
    decreases user.len(),
{
    if user.len() > 0 {
        let d = user.drop_last();
        assert forall|i: int| 0 <= i < d.len() implies (#[trigger] d[i]).0@ != id by {
            assert(d[i] == user[i]);
        }
        law_unnamed_builtin_rules_stay(d, id);
        assert(user[user.len() - 1].0@ != id);
    }
}

} // verus!

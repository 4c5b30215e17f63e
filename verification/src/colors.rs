//! The colors of the focus and urgency indicators, read from the
//! compositor's configuration file.
use vstd::prelude::*;
use vstd::utf8::{encode_utf8, is_char_boundary};

use crate::text::{chars_of, string_of};

verus! {

broadcast use vstd::string::group_string_axioms;

/// A color, one byte per channel, fully opaque.
#[derive(PartialEq, Eq, Structural, Clone, Copy)]
pub struct Rgb {
    pub r: u8,
    pub g: u8,
    pub b: u8,
}

/// A solid color, or a gradient drawn from `from` at the center to `to` at
/// the edges.
#[derive(PartialEq, Eq, Structural, Clone, Copy)]
pub enum IndicatorColor {
    Solid(Rgb),
    Gradient { from: Rgb, to: Rgb },
}

/// The colors of the focused and of the urgent window's indicator.
#[derive(PartialEq, Eq, Structural, Clone, Copy)]
pub struct BorderColors {
    pub active: IndicatorColor,
    pub urgent: IndicatorColor,
}

/// The value of a hexadecimal digit.
pub open spec fn hex_digit(c: u8) -> Option<u8> {
    if 48 <= c <= 57 {
        Some((c - 48) as u8)
    } else if 97 <= c <= 102 {
        Some((c - 87) as u8)
    } else if 65 <= c <= 70 {
        Some((c - 55) as u8)
    } else {
        None
    }
}

/// What `u8::from_str_radix` reads from two bytes in base 16: two digits,
/// or a plus sign and one digit.
pub open spec fn byte_pair(a: u8, b: u8) -> Option<u8> {
    if a == 43 {
        hex_digit(b)
    } else {
        match (hex_digit(a), hex_digit(b)) {
            (Some(x), Some(y)) => Some((x * 16 + y) as u8),
            _ => None,
        }
    }
}

/// The bytes after a leading `#`, when there is one.
pub open spec fn hex_body(s: Seq<char>) -> Option<Seq<u8>> {
    if s.len() > 0 && s[0] == '#' {
        Some(encode_utf8(s.drop_first()))
    } else {
        None
    }
}

/// Reading `#rrggbb` cuts the text after `#` at its second and, once the
/// first pair reads, at its fourth byte; a cut inside a character panics.
pub open spec fn hex_color_panics(s: Seq<char>) -> bool {
    match hex_body(s) {
        Some(h) => h.len() == 6 && (!is_char_boundary(h, 2) || (byte_pair(h[0], h[1]) is Some
            && !is_char_boundary(h, 4))),
        None => false,
    }
}

/// The color written `#rrggbb`.
pub open spec fn hex_color_of(s: Seq<char>) -> Option<Rgb> {
    match hex_body(s) {
        Some(h) => if h.len() != 6 {
            None
        } else {
            match (byte_pair(h[0], h[1]), byte_pair(h[2], h[3]), byte_pair(h[4], h[5])) {
                (Some(r), Some(g), Some(b)) => Some(Rgb { r, g, b }),
                _ => None,
            }
        },
        None => None,
    }
}

fn hex_digit_exec(c: u8) -> (r: Option<u8>)
    ensures
        r == hex_digit(c),
{
    if 48 <= c && c <= 57 {
        Some(c - 48)
    } else if 97 <= c && c <= 102 {
        Some(c - 87)
    } else if 65 <= c && c <= 70 {
        Some(c - 55)
    } else {
        None
    }
}

fn byte_pair_exec(a: u8, b: u8) -> (r: Option<u8>)
    ensures
        r == byte_pair(a, b),
{
    if a == 43 {
        hex_digit_exec(b)
    } else {
        match (hex_digit_exec(a), hex_digit_exec(b)) {
            (Some(x), Some(y)) => Some(x * 16 + y),
            _ => None,
        }
    }
}

/// Reads a color written `#rrggbb`.
pub fn parse_hex_color(hex: &str) -> (r: Option<Rgb>)
    requires
        !hex_color_panics(hex@),
    ensures
        r == hex_color_of(hex@),
{
    let chars = chars_of(hex);
    if chars.len() == 0 || chars[0] != '#' {
        return None;
    }
    let mut rest_chars: Vec<char> = Vec::new();
    let mut i: usize = 1;
    while i < chars.len()
        invariant
            1 <= i <= chars@.len(),
            rest_chars@ == chars@.subrange(1, i as int),
        decreases chars@.len() - i,
    {
        rest_chars.push(chars[i]);
        proof {
            assert(chars@.subrange(1, i + 1) =~= chars@.subrange(1, i as int).push(chars@[i as int]));
        }
        i = i + 1;
    }
    proof {
        assert(chars@.subrange(1, chars@.len() as int) =~= hex@.drop_first());
    }
    let rest = string_of(&rest_chars);
    let body = rest.as_str().as_bytes();
    if body.len() != 6 {
        return None;
    }
    let r = match byte_pair_exec(body[0], body[1]) {
        Some(v) => v,
        None => {
            return None;
        },
    };
    let g = match byte_pair_exec(body[2], body[3]) {
        Some(v) => v,
        None => {
            return None;
        },
    };
    let b = match byte_pair_exec(body[4], body[5]) {
        Some(v) => v,
        None => {
            return None;
        },
    };
    Some(Rgb { r, g, b })
}

/// A property or argument of a configuration node, with its value where the
/// value is a string.
pub struct ConfigEntry {
    pub name: Option<String>,
    pub value: Option<String>,
}

/// A node of the configuration document.
pub struct ConfigNode {
    pub name: String,
    pub entries: Vec<ConfigEntry>,
    pub children: Option<Vec<ConfigNode>>,
}

/// What a configuration node holds, as values: its name, its entries as
/// (name, string value) pairs, and its children.
pub struct NodeView {
    pub name: Seq<char>,
    pub entries: Seq<(Option<Seq<char>>, Option<Seq<char>>)>,
    pub children: Option<Seq<NodeView>>,
}

/// The view of an entry: its name and its string value.
pub open spec fn entry_view(e: ConfigEntry) -> (Option<Seq<char>>, Option<Seq<char>>) {
    (e.name.deep_view(), e.value.deep_view())
}

/// The view of a node.
pub open spec fn node_view(n: ConfigNode) -> NodeView
    decreases n, 1int,
{
    NodeView {
        name: n.name@,
        entries: entries_view(n.entries@),
        children: match n.children {
            Some(c) => Some(nodes_view(c@)),
            None => None,
        },
    }
}

/// The views of a list of nodes.
pub open spec fn nodes_view(s: Seq<ConfigNode>) -> Seq<NodeView>
    decreases s, 0int,
{
    if s.len() == 0 {
        Seq::empty()
    } else {
        seq![node_view(s[0])] + nodes_view(s.subrange(1, s.len() as int))
    }
}

/// The nodes of the document the `kdl` crate parses from `content`, each
/// with its name, its entries' names and string values, and its children;
/// nothing when `content` is no valid KDL.
pub uninterp spec fn kdl_document(content: Seq<char>) -> Option<Seq<NodeView>>;

#[verifier::external_type_specification]
#[verifier::external_body]
pub struct ExKdlDocument(kdl::KdlDocument);

/// Converts the nodes of a parsed `kdl::KdlDocument` into the library's
/// nodes, one for one, reading `KdlNode::name`, `entries` and `children` and
/// `KdlValue::as_string`; nothing about the result is stated here.
#[verifier::external_body]
fn config_nodes(doc: &kdl::KdlDocument) -> Vec<ConfigNode> {
    doc.nodes().iter().map(|n| ConfigNode {
        name: n.name().value().to_string(),
        entries: n.entries().iter().map(|e| ConfigEntry {
            name: e.name().map(|i| i.value().to_string()),
            value: e.value().as_string().map(String::from),
        }).collect(),
        children: n.children().map(config_nodes),
    }).collect()
}

/// Parses `content` with `KdlDocument`'s `FromStr`, a function of the text
/// alone, and converts what it gives; the result is named `kdl_document`.
#[verifier::external_body]
fn parse_config(content: &str) -> (r: Option<Vec<ConfigNode>>)
    ensures
        match r {
            Some(d) => kdl_document(content@) == Some(nodes_view(d@)),
            None => kdl_document(content@) is None,
        },
{
    content.parse::<kdl::KdlDocument>().ok().map(|d| config_nodes(&d))
}

/// The first node named `name`, as `KdlDocument::get` finds it.
pub open spec fn node_named(doc: Seq<NodeView>, name: Seq<char>) -> Option<NodeView>
    decreases doc.len(),
{
    if doc.len() == 0 {
        None
    } else if doc[0].name == name {
        Some(doc[0])
    } else {
        node_named(doc.drop_first(), name)
    }
}

/// The string value of the last property `key` of `entries`, as
/// `KdlNode::get` with a key finds it.
pub open spec fn property(entries: Seq<(Option<Seq<char>>, Option<Seq<char>>)>, key: Seq<char>) -> Option<
    Seq<char>,
>
    decreases entries.len(),
{
    if entries.len() == 0 {
        None
    } else if entries.last().0 == Some(key) {
        entries.last().1
    } else {
        property(entries.drop_last(), key)
    }
}

/// The string value of a node's first entry.
pub open spec fn first_value(n: NodeView) -> Option<Seq<char>> {
    if n.entries.len() > 0 {
        n.entries[0].1
    } else {
        None
    }
}

pub open spec fn hex_opt(s: Option<Seq<char>>) -> Option<Rgb> {
    match s {
        Some(t) => hex_color_of(t),
        None => None,
    }
}

pub open spec fn hex_opt_panics(s: Option<Seq<char>>) -> bool {
    match s {
        Some(t) => hex_color_panics(t),
        None => false,
    }
}

/// The color a section gives: a gradient node's `from` and `to` (one of them
/// alone makes a solid color), else the first value of a color node.
pub open spec fn indicator_color_of(section: Seq<NodeView>, gradient_key: Seq<char>, color_key: Seq<char>) -> Option<
    IndicatorColor,
> {
    let from_grad = match node_named(section, gradient_key) {
        Some(n) => match (hex_opt(property(n.entries, "from"@)), hex_opt(property(n.entries, "to"@))) {
            (Some(f), Some(t)) => Some(IndicatorColor::Gradient { from: f, to: t }),
            (Some(c), None) => Some(IndicatorColor::Solid(c)),
            (None, Some(c)) => Some(IndicatorColor::Solid(c)),
            (None, None) => None,
        },
        None => None,
    };
    match from_grad {
        Some(c) => Some(c),
        None => match node_named(section, color_key) {
            Some(n) => match hex_opt(first_value(n)) {
                Some(c) => Some(IndicatorColor::Solid(c)),
                None => None,
            },
            None => None,
        },
    }
}

/// Reading the color of a section reaches a color text that panics.
pub open spec fn indicator_color_panics(section: Seq<NodeView>, gradient_key: Seq<char>, color_key: Seq<char>) -> bool {
    let grad = node_named(section, gradient_key);
    let grad_panics = match grad {
        Some(n) => hex_opt_panics(property(n.entries, "from"@)) || hex_opt_panics(
            property(n.entries, "to"@),
        ),
        None => false,
    };
    let grad_gives = match grad {
        Some(n) => hex_opt(property(n.entries, "from"@)) is Some || hex_opt(
            property(n.entries, "to"@),
        ) is Some,
        None => false,
    };
    grad_panics || (!grad_gives && match node_named(section, color_key) {
        Some(n) => hex_opt_panics(first_value(n)),
        None => false,
    })
}

/// The views of `s` are those of its nodes, one for one.
proof fn lemma_nodes_view(s: Seq<ConfigNode>)
    ensures
        nodes_view(s).len() == s.len(),
        forall|i: int| 0 <= i < s.len() ==> #[trigger] nodes_view(s)[i] == node_view(s[i]),
    decreases s.len(),
{
    if s.len() > 0 {
        let t = s.subrange(1, s.len() as int);
        lemma_nodes_view(t);
        assert forall|i: int| 0 <= i < s.len() implies #[trigger] nodes_view(s)[i] == node_view(s[i]) by {
            if i > 0 {
                assert(nodes_view(s)[i] == nodes_view(t)[i - 1]);
                assert(t[i - 1] == s[i]);
            }
        }
    }
}

fn node_named_exec<'a>(doc: &'a Vec<ConfigNode>, name: &str) -> (r: Option<&'a ConfigNode>)
    ensures
        match r {
            Some(n) => node_named(nodes_view(doc@), name@) == Some(node_view(*n)),
            None => node_named(nodes_view(doc@), name@) is None,
        },
{
    let key = name.to_string();
    let ghost v = nodes_view(doc@);
    proof {
        lemma_nodes_view(doc@);
        assert(v.subrange(0, v.len() as int) =~= v);
    }
    let mut i: usize = 0;
    while i < doc.len()
        invariant
            i <= doc@.len(),
            v.len() == doc@.len(),
            v == nodes_view(doc@),
            forall|k: int| 0 <= k < doc@.len() ==> #[trigger] v[k] == node_view(doc@[k]),
            key@ == name@,
            node_named(v, name@) == node_named(v.subrange(i as int, v.len() as int), name@),
        decreases doc@.len() - i,
    {
        proof {
            let rest = v.subrange(i as int, v.len() as int);
            assert(rest.drop_first() =~= v.subrange(i + 1, v.len() as int));
            assert(rest[0] == v[i as int]);
            assert(v[i as int] == node_view(doc@[i as int]));
        }
        if doc[i].name.eq(&key) {
            return Some(&doc[i]);
        }
        i = i + 1;
    }
    None
}

/// The views of a node's entries.
pub open spec fn entries_view(entries: Seq<ConfigEntry>) -> Seq<(Option<Seq<char>>, Option<Seq<char>>)> {
    entries.map_values(|e: ConfigEntry| entry_view(e))
}

fn property_exec<'a>(entries: &'a Vec<ConfigEntry>, key: &str) -> (r: Option<&'a String>)
    ensures
        match r {
            Some(v) => property(entries_view(entries@), key@) == Some(v@),
            None => property(entries_view(entries@), key@) is None,
        },
{
    let k = key.to_string();
    let ghost ev = entries_view(entries@);
    let mut i: usize = entries.len();
    proof {
        assert(ev.take(ev.len() as int) =~= ev);
    }
    while i > 0
        invariant
            i <= entries@.len(),
            ev == entries_view(entries@),
            k@ == key@,
            property(ev, key@) == property(ev.take(i as int), key@),
        decreases i,
    {
        proof {
            assert(ev.take(i as int).drop_last() =~= ev.take(i - 1));
            assert(ev.take(i as int).last() == ev[i - 1]);
            assert(ev[i - 1] == entry_view(entries@[i - 1]));
        }
        let e = &entries[i - 1];
        let named = match &e.name {
            Some(n) => n.eq(&k),
            None => false,
        };
        if named {
            return match &e.value {
                Some(v) => Some(v),
                None => None,
            };
        }
        i = i - 1;
    }
    None
}

fn first_value_exec(n: &ConfigNode) -> (r: Option<&String>)
    ensures
        match r {
            Some(v) => first_value(node_view(*n)) == Some(v@),
            None => first_value(node_view(*n)) is None,
        },
{
    if n.entries.len() > 0 {
        proof {
            assert(node_view(*n).entries[0] == entry_view(n.entries@[0]));
        }
        match &n.entries[0].value {
            Some(v) => Some(v),
            None => None,
        }
    } else {
        None
    }
}

fn hex_opt_exec(s: Option<&String>) -> (r: Option<Rgb>)
    requires
        !hex_opt_panics(
            match s {
                Some(t) => Some(t@),
                None => None,
            },
        ),
    ensures
        r == hex_opt(
            match s {
                Some(t) => Some(t@),
                None => None,
            },
        ),
{
    match s {
        Some(t) => parse_hex_color(t.as_str()),
        None => None,
    }
}

/// The color a section gives for one indicator.
pub fn parse_indicator_color(border: &Vec<ConfigNode>, gradient_key: &str, color_key: &str) -> (r: Option<
    IndicatorColor,
>)
    requires
        !indicator_color_panics(nodes_view(border@), gradient_key@, color_key@),
    ensures
        r == indicator_color_of(nodes_view(border@), gradient_key@, color_key@),
{
    proof {
        reveal_strlit("from");
        reveal_strlit("to");
    }
    if let Some(node) = node_named_exec(border, gradient_key) {
        let from = hex_opt_exec(property_exec(&node.entries, "from"));
        let to = hex_opt_exec(property_exec(&node.entries, "to"));
        match (from, to) {
            (Some(f), Some(t)) => {
                return Some(IndicatorColor::Gradient { from: f, to: t });
            },
            (Some(c), None) => {
                return Some(IndicatorColor::Solid(c));
            },
            (None, Some(c)) => {
                return Some(IndicatorColor::Solid(c));
            },
            (None, None) => {},
        }
    }
    if let Some(node) = node_named_exec(border, color_key) {
        if let Some(c) = hex_opt_exec(first_value_exec(node)) {
            return Some(IndicatorColor::Solid(c));
        }
    }
    None
}

/// The compositor's default color of the focused window, `#7fc8ff`.
pub open spec fn default_active() -> IndicatorColor {
    IndicatorColor::Solid(Rgb { r: 0x7f, g: 0xc8, b: 0xff })
}

/// The compositor's default color of an urgent window, `#9b0000`.
pub open spec fn default_urgent() -> IndicatorColor {
    IndicatorColor::Solid(Rgb { r: 0x9b, g: 0, b: 0 })
}

/// The children of the first node named `name`, if it has any.
pub open spec fn children_of(doc: Option<Seq<NodeView>>, name: Seq<char>) -> Option<Seq<NodeView>> {
    match doc {
        Some(d) => match node_named(d, name) {
            Some(n) => n.children,
            None => None,
        },
        None => None,
    }
}

/// The section the colors come from: the layout's border, else its focus
/// ring.
pub open spec fn color_section(doc: Seq<NodeView>) -> Option<Seq<NodeView>> {
    let layout = children_of(Some(doc), "layout"@);
    match children_of(layout, "border"@) {
        Some(s) => Some(s),
        None => children_of(layout, "focus-ring"@),
    }
}

/// Reading the colors of `doc` reaches a color text that panics.
pub open spec fn border_colors_panic(doc: Seq<NodeView>) -> bool {
    match color_section(doc) {
        Some(s) => indicator_color_panics(s, "active-gradient"@, "active-color"@)
            || indicator_color_panics(s, "urgent-gradient"@, "urgent-color"@),
        None => false,
    }
}

/// The indicator colors `doc` sets, each falling back to the compositor's
/// default.
pub open spec fn border_colors_of(doc: Seq<NodeView>) -> BorderColors {
    match color_section(doc) {
        Some(s) => BorderColors {
            active: match indicator_color_of(s, "active-gradient"@, "active-color"@) {
                Some(c) => c,
                None => default_active(),
            },
            urgent: match indicator_color_of(s, "urgent-gradient"@, "urgent-color"@) {
                Some(c) => c,
                None => default_urgent(),
            },
        },
        None => BorderColors { active: default_active(), urgent: default_urgent() },
    }
}

fn children_exec<'a>(doc: Option<&'a Vec<ConfigNode>>, name: &str) -> (r: Option<&'a Vec<ConfigNode>>)
    ensures
        match r {
            Some(c) => children_of(
                match doc {
                    Some(d) => Some(nodes_view(d@)),
                    None => None,
                },
                name@,
            ) == Some(nodes_view(c@)),
            None => children_of(
                match doc {
                    Some(d) => Some(nodes_view(d@)),
                    None => None,
                },
                name@,
            ) is None,
        },
{
    match doc {
        Some(d) => match node_named_exec(d, name) {
            Some(n) => match &n.children {
                Some(c) => Some(c),
                None => None,
            },
            None => None,
        },
        None => None,
    }
}

/// The indicator colors a parsed configuration sets.
pub fn border_colors_from(doc: &Vec<ConfigNode>) -> (c: BorderColors)
    requires
        !border_colors_panic(nodes_view(doc@)),
    ensures
        c == border_colors_of(nodes_view(doc@)),
{
    proof {
        reveal_strlit("layout");
        reveal_strlit("border");
        reveal_strlit("focus-ring");
    }
    let layout = children_exec(Some(doc), "layout");
    let section = match children_exec(layout, "border") {
        Some(s) => Some(s),
        None => children_exec(layout, "focus-ring"),
    };
    match section {
        Some(s) => {
            let active = match parse_indicator_color(s, "active-gradient", "active-color") {
                Some(c) => c,
                None => IndicatorColor::Solid(Rgb { r: 0x7f, g: 0xc8, b: 0xff }),
            };
            let urgent = match parse_indicator_color(s, "urgent-gradient", "urgent-color") {
                Some(c) => c,
                None => IndicatorColor::Solid(Rgb { r: 0x9b, g: 0, b: 0 }),
            };
            BorderColors { active, urgent }
        },
        None => BorderColors {
            active: IndicatorColor::Solid(Rgb { r: 0x7f, g: 0xc8, b: 0xff }),
            urgent: IndicatorColor::Solid(Rgb { r: 0x9b, g: 0, b: 0 }),
        },
    }
}

/// The indicator colors the configuration text `content` sets.
pub fn parse_border_colors(content: &str) -> (c: BorderColors)
    requires
        kdl_document(content@) matches Some(d) && !border_colors_panic(d),
    ensures
        c == border_colors_of(kdl_document(content@)->0),
{
    match parse_config(content) {
        Some(doc) => border_colors_from(&doc),
        None => BorderColors {
            active: IndicatorColor::Solid(Rgb { r: 0x7f, g: 0xc8, b: 0xff }),
            urgent: IndicatorColor::Solid(Rgb { r: 0x9b, g: 0, b: 0 }),
        },
    }
}

/// Whether reading the colors of `doc` stays clear of texts that panic.
fn colors_readable(doc: &Vec<ConfigNode>) -> (b: bool)
    ensures
        b == !border_colors_panic(nodes_view(doc@)),
{
    proof {
        reveal_strlit("layout");
        reveal_strlit("border");
        reveal_strlit("focus-ring");
    }
    let layout = children_exec(Some(doc), "layout");
    let section = match children_exec(layout, "border") {
        Some(s) => Some(s),
        None => children_exec(layout, "focus-ring"),
    };
    match section {
        Some(s) => !indicator_panics_exec(s, "active-gradient", "active-color")
            && !indicator_panics_exec(s, "urgent-gradient", "urgent-color"),
        None => true,
    }
}

fn hex_panics_exec(s: &str) -> (b: bool)
    ensures
        b == hex_color_panics(s@),
{
    let chars = chars_of(s);
    if chars.len() == 0 || chars[0] != '#' {
        return false;
    }
    let mut rest_chars: Vec<char> = Vec::new();
    let mut i: usize = 1;
    while i < chars.len()
        invariant
            1 <= i <= chars@.len(),
            rest_chars@ == chars@.subrange(1, i as int),
        decreases chars@.len() - i,
    {
        rest_chars.push(chars[i]);
        proof {
            assert(chars@.subrange(1, i + 1) =~= chars@.subrange(1, i as int).push(chars@[i as int]));
        }
        i = i + 1;
    }
    proof {
        assert(chars@.subrange(1, chars@.len() as int) =~= s@.drop_first());
    }
    let rest = string_of(&rest_chars);
    let text = rest.as_str();
    let body = text.as_bytes();
    if body.len() != 6 {
        return false;
    }
    if !text.is_char_boundary(2) {
        return true;
    }
    byte_pair_exec(body[0], body[1]).is_some() && !text.is_char_boundary(4)
}

fn hex_opt_panics_exec(s: Option<&String>) -> (b: bool)
    ensures
        b == hex_opt_panics(
            match s {
                Some(t) => Some(t@),
                None => None,
            },
        ),
{
    match s {
        Some(t) => hex_panics_exec(t.as_str()),
        None => false,
    }
}

fn indicator_panics_exec(section: &Vec<ConfigNode>, gradient_key: &str, color_key: &str) -> (b: bool)
    ensures
        b == indicator_color_panics(nodes_view(section@), gradient_key@, color_key@),
{
    proof {
        reveal_strlit("from");
        reveal_strlit("to");
    }
    let mut gives = false;
    if let Some(node) = node_named_exec(section, gradient_key) {
        let from = property_exec(&node.entries, "from");
        let to = property_exec(&node.entries, "to");
        if hex_opt_panics_exec(from) || hex_opt_panics_exec(to) {
            return true;
        }
        gives = hex_opt_exec(from).is_some() || hex_opt_exec(to).is_some();
    }
    if gives {
        return false;
    }
    match node_named_exec(section, color_key) {
        Some(n) => hex_opt_panics_exec(first_value_exec(n)),
        None => false,
    }
}

/// The indicator colors `content` sets, or nothing where the text is no
/// valid KDL or a color text in it would panic the reading.
pub fn checked_parse_border_colors(content: &str) -> (c: Option<BorderColors>)
    ensures
        match c {
            Some(colors) => kdl_document(content@) matches Some(d) && !border_colors_panic(d)
                && colors == border_colors_of(d),
            None => match kdl_document(content@) {
                Some(d) => border_colors_panic(d),
                None => true,
            },
        },
{
    match parse_config(content) {
        Some(doc) => if colors_readable(&doc) {
            Some(parse_border_colors(content))
        } else {
            None
        },
        None => None,
    }
}


/// The indicator under a button: the active color for the focused window,
/// the urgent color for an urgent one, none otherwise.
pub fn indicator_color_for(colors: &BorderColors, is_focused: bool, is_urgent: bool) -> (c: Option<IndicatorColor>)
    ensures
        c == if is_focused {
            Some(colors.active)
        } else if is_urgent {
            Some(colors.urgent)
        } else {
            None
        },
{
    if is_focused {
        Some(colors.active)
    } else if is_urgent {
        Some(colors.urgent)
    } else {
        None
    }
}

/// The colors come from the layout's border section where it has one; the
/// focus ring is read only where there is no border section, and with
/// neither the compositor's defaults stand.
pub proof fn law_border_section_first(doc: Seq<NodeView>)
    ensures
        ({
            let layout = children_of(Some(doc), "layout"@);
            let border = children_of(layout, "border"@);
            let ring = children_of(layout, "focus-ring"@);
            &&& border matches Some(s) ==> color_section(doc) == Some(s)
                && border_colors_of(doc).active == match indicator_color_of(s, "active-gradient"@, "active-color"@) {
                    Some(c) => c,
                    None => default_active(),
                }
                && border_colors_of(doc).urgent == match indicator_color_of(s, "urgent-gradient"@, "urgent-color"@) {
                    Some(c) => c,
                    None => default_urgent(),
                }
            &&& border is None ==> (ring matches Some(s) ==> color_section(doc) == Some(s)
                && border_colors_of(doc).active == match indicator_color_of(s, "active-gradient"@, "active-color"@) {
                    Some(c) => c,
                    None => default_active(),
                })
            &&& (border is None && ring is None) ==> color_section(doc) is None && border_colors_of(doc)
                == BorderColors { active: default_active(), urgent: default_urgent() }
        }),
{
}

/// A section's color is its gradient, where the gradient node gives both
/// ends; the plain color node counts only where the gradient gives neither.
pub proof fn law_gradient_before_color(section: Seq<NodeView>, gradient_key: Seq<char>, color_key: Seq<char>)
    ensures
        match node_named(section, gradient_key) {
            Some(g) => match (hex_opt(property(g.entries, "from"@)), hex_opt(property(g.entries, "to"@))) {
                (Some(f), Some(t)) => indicator_color_of(section, gradient_key, color_key) == Some(
                    IndicatorColor::Gradient { from: f, to: t },
                ),
                _ => true,
            },
            None => true,
        },
        node_named(section, gradient_key) is None ==> indicator_color_of(section, gradient_key, color_key) == match node_named(
            section,
            color_key,
        ) {
            Some(n) => match hex_opt(first_value(n)) {
                Some(c) => Some(IndicatorColor::Solid(c)),
                None => None,
            },
            None => None,
        },
{
}

} // verus!

//! What the terminal interface decides, apart from drawing: the inline
//! add / edit form, the selection, the filter and the columns of a row.

use vstd::prelude::*;

use crate::engine::{form_tunnel, tunnel_from_form, tunnel_result, tunnel_url, url_text};
use crate::gui::{matches_filter, tunnel_matches};
use crate::ports::{tunnel_views, Direction, Tunnel, TunnelView};
use crate::text::{
    chars_of, decimal, lowercased, push_char, push_decimal, push_str, string_of, to_lowercase,
};

verus! {

broadcast use vstd::string::group_string_axioms;

/// The inline form below the tunnel table: service port, listening port and
/// label.
#[derive(Debug)]
pub struct InlineForm {
    pub direction: Direction,
    pub fields: [String; 3],
    /// The field being typed into.
    pub selected: usize,
    /// When set, the form updates this tunnel instead of creating one.
    pub edit_index: Option<usize>,
    pub was_enabled: bool,
}

/// The name of field `i` of the inline form: the service port first, then
/// the listening port, then the label.
pub open spec fn field_label(direction: Direction, i: int) -> Seq<char> {
    if i == 0 {
        match direction {
            Direction::Local => "Remote port"@,
            Direction::Reverse => "Local port"@,
        }
    } else if i == 1 {
        match direction {
            Direction::Local => "Local port"@,
            Direction::Reverse => "Remote port"@,
        }
    } else {
        "Label"@
    }
}

/// The title of the inline form.
pub open spec fn inline_title(direction: Direction, editing: bool) -> Seq<char> {
    match (editing, direction) {
        (false, Direction::Local) => " Add forward (remote → local) "@,
        (false, Direction::Reverse) => " Add reverse (local → remote) "@,
        (true, Direction::Local) => " Edit forward (remote → local) "@,
        (true, Direction::Reverse) => " Edit reverse (local → remote) "@,
    }
}

/// A key pressed while the form is open.
#[derive(Clone, Copy, Debug, PartialEq, Eq, Structural)]
pub enum FormKey {
    Down,
    Up,
    Tab,
    BackTab,
    Backspace,
    Enter,
    Esc,
    Char(char),
    Other,
}

impl InlineForm {
    /// An empty form for a new tunnel.
    pub fn new(direction: Direction) -> (f: InlineForm)
        ensures
            f.direction == direction,
            f.fields@.len() == 3,
            forall|i: int| 0 <= i < 3 ==> (#[trigger] f.fields@[i])@.len() == 0,
            f.selected == 0,
            f.edit_index is None,
            !f.was_enabled,
    {
        InlineForm {
            direction,
            fields: [String::new(), String::new(), String::new()],
            selected: 0,
            edit_index: None,
            was_enabled: false,
        }
    }

    /// The form filled in from the tunnel at `index`.
    pub fn edit(tunnel: &Tunnel, index: usize) -> (f: InlineForm)
        ensures
            f.direction == tunnel.direction,
            f.fields@.len() == 3,
            f.fields@[0]@ == decimal(tunnel.source_port as nat),
            f.fields@[1]@ == decimal(tunnel.requested_port as nat),
            f.fields@[2]@ == tunnel.label@,
            f.selected == 0,
            f.edit_index == Some(index),
            f.was_enabled == tunnel.enabled,
    {
        let mut source: Vec<char> = Vec::new();
        push_decimal(&mut source, tunnel.source_port as u128);
        let mut requested: Vec<char> = Vec::new();
        push_decimal(&mut requested, tunnel.requested_port as u128);
        InlineForm {
            direction: tunnel.direction,
            fields: [string_of(&source), string_of(&requested), tunnel.label.clone()],
            selected: 0,
            edit_index: Some(index),
            was_enabled: tunnel.enabled,
        }
    }

    /// The names of the three fields.
    pub fn labels(&self) -> (l: [&'static str; 3])
        ensures
            l@.len() == 3,
            forall|i: int| 0 <= i < 3 ==> (#[trigger] l@[i])@ == field_label(self.direction, i),
    {
        match self.direction {
            Direction::Local => ["Remote port", "Local port", "Label"],
            Direction::Reverse => ["Local port", "Remote port", "Label"],
        }
    }

    /// The title of the form.
    pub fn title(&self) -> (t: &'static str)
        ensures
            t@ == inline_title(self.direction, self.edit_index is Some),
    {
        match (self.edit_index.is_some(), self.direction) {
            (false, Direction::Local) => " Add forward (remote → local) ",
            (false, Direction::Reverse) => " Add reverse (local → remote) ",
            (true, Direction::Local) => " Edit forward (remote → local) ",
            (true, Direction::Reverse) => " Edit reverse (local → remote) ",
        }
    }

    /// The key help shown under the form.
    pub fn help_line() -> (h: &'static str)
        ensures
            h@ == "↑↓ Select  Enter Next/Save  Esc Cancel"@,
    {
        "↑↓ Select  Enter Next/Save  Esc Cancel"
    }

    /// The tunnel the form describes.
    pub fn tunnel(&self) -> (r: Result<Tunnel, String>)
        ensures
            tunnel_result(r) == form_tunnel(self.direction, self.fields@[0]@, self.fields@[1]@, self.fields@[2]@),
    {
        tunnel_from_form(
            self.direction,
            self.fields[0].as_str(),
            self.fields[1].as_str(),
            self.fields[2].as_str(),
        )
    }
}

/// A string without its last character.
fn without_last(s: &String) -> (r: String)
    ensures
        r@ == (if s@.len() > 0 {
            s@.drop_last()
        } else {
            s@
        }),
{
    let cs = chars_of(s.as_str());
    if cs.len() == 0 {
        return String::new();
    }
    let kept = crate::text::slice_chars(&cs, 0, cs.len() - 1);
    assert(cs@.subrange(0, cs@.len() - 1) == cs@.drop_last());
    string_of(&kept)
}

/// What a key does to the form: arrows and tab move between the three
/// fields (and wrap), backspace and characters edit the selected field, and enter moves
/// to the next field or, on the last one, returns the tunnel described.
pub fn handle_inline_form(key: FormKey, form: &mut InlineForm) -> (r: Result<Option<Tunnel>, String>)
    requires
        (key is Backspace || key is Char) ==> old(form).selected < 3,
        (key is Up || key is BackTab) ==> old(form).selected <= usize::MAX - 3,
        (key is Down || key is Tab) ==> old(form).selected < usize::MAX,
        key is Enter ==> old(form).selected < usize::MAX,
    ensures
        final(form).direction == old(form).direction,
        final(form).edit_index == old(form).edit_index,
        final(form).was_enabled == old(form).was_enabled,
        match key {
            FormKey::Down | FormKey::Tab => final(form).selected == (old(form).selected + 1) % 3 && final(form).fields == old(form).fields && r == Ok::<Option<Tunnel>, String>(None),
            FormKey::Up | FormKey::BackTab => final(form).selected == (old(form).selected + 2) % 3 && final(form).fields == old(form).fields && r == Ok::<Option<Tunnel>, String>(None),
            FormKey::Backspace => final(form).selected == old(form).selected && final(form).fields@.len() == 3
                && (forall|i: int| 0 <= i < 3 && i != old(form).selected ==> #[trigger] final(form).fields@[i] == old(form).fields@[i])
                && final(form).fields@[old(form).selected as int]@ == (if old(form).fields@[old(form).selected as int]@.len() > 0 {
                    old(form).fields@[old(form).selected as int]@.drop_last()
                } else {
                    old(form).fields@[old(form).selected as int]@
                }) && r == Ok::<Option<Tunnel>, String>(None),
            FormKey::Char(c) => final(form).selected == old(form).selected && final(form).fields@.len() == 3
                && (forall|i: int| 0 <= i < 3 && i != old(form).selected ==> #[trigger] final(form).fields@[i] == old(form).fields@[i])
                && final(form).fields@[old(form).selected as int]@ == old(form).fields@[old(form).selected as int]@.push(c)
                && r == Ok::<Option<Tunnel>, String>(None),
            FormKey::Enter => if old(form).selected + 1 == 3 {
                final(form).selected == old(form).selected && final(form).fields == old(form).fields && match r {
                    Ok(Some(t)) => form_tunnel(old(form).direction, old(form).fields@[0]@, old(form).fields@[1]@, old(form).fields@[2]@) == Ok::<TunnelView, Seq<char>>(t@),
                    Err(m) => form_tunnel(old(form).direction, old(form).fields@[0]@, old(form).fields@[1]@, old(form).fields@[2]@) == Err::<TunnelView, Seq<char>>(m@),
                    Ok(None) => false,
                }
            } else {
                final(form).selected == old(form).selected + 1 && final(form).fields == old(form).fields && r == Ok::<Option<Tunnel>, String>(None)
            },
            FormKey::Esc | FormKey::Other => final(form).selected == old(form).selected && final(form).fields == old(form).fields && r == Ok::<Option<Tunnel>, String>(None),
        },
{
    match key {
        FormKey::Down | FormKey::Tab => {
            form.selected = (form.selected + 1) % 3;
        },
        FormKey::Up | FormKey::BackTab => {
            form.selected = (form.selected + 3 - 1) % 3;
        },
        FormKey::Backspace => {
            let i = form.selected;
            let shorter = without_last(&form.fields[i]);
            form.fields[i] = shorter;
        },
        FormKey::Enter => {
            if form.selected + 1 == 3 {
                return match form.tunnel() {
                    Ok(t) => Ok(Some(t)),
                    Err(m) => Err(m),
                };
            }
            form.selected = form.selected + 1;
        },
        FormKey::Char(c) => {
            let i = form.selected;
            let mut longer = form.fields[i].clone();
            push_char(&mut longer, c);
            form.fields[i] = longer;
        },
        FormKey::Esc | FormKey::Other => {},
    }
    Ok(None)
}

/// The selection after moving by `delta` rows in a list of `len` rows,
/// wrapping around; an empty list keeps the selection.
pub fn move_selection(current: Option<usize>, len: usize, delta: isize) -> (next: Option<usize>)
    requires
        len <= isize::MAX,
        (match current {
            Some(c) => c,
            None => 0,
        }) + delta <= isize::MAX,
        (match current {
            Some(c) => c,
            None => 0,
        }) <= isize::MAX,
        (match current {
            Some(c) => c,
            None => 0,
        }) + delta >= isize::MIN,
    ensures
        len == 0 ==> next == current,
        len > 0 ==> next == Some(
            (((match current {
                Some(c) => c as int,
                None => 0int,
            }) + delta) % (len as int)) as usize,
        ),
{
    if len == 0 {
        return current;
    }
    let c: i128 = match current {
        Some(c) => c as i128,
        None => 0,
    };
    let sum: i128 = c + delta as i128;
    let n: i128 = len as i128;
    let m: i128 = if sum >= 0 {
        ((sum as u128) % (n as u128)) as i128
    } else {
        let a: u128 = (0 - sum) as u128;
        let r: u128 = a % (n as u128);
        proof {
            let ai = a as int;
            let ni = n as int;
            let q = ai / ni;
            let ri = r as int;
            vstd::arithmetic::div_mod::lemma_fundamental_div_mod(ai, ni);
            assert(ai == ni * q + ri);
            assert(sum as int == -ai);
            if r == 0 {
                assert((sum as int) == (-q) * ni + 0) by (nonlinear_arith)
                    requires
                        sum as int == -ai,
                        ai == ni * q + ri,
                        ri == 0,
                ;
                vstd::arithmetic::div_mod::lemma_fundamental_div_mod_converse_mod(sum as int, ni, -q, 0);
            } else {
                assert((sum as int) == (-q - 1) * ni + (ni - ri)) by (nonlinear_arith)
                    requires
                        sum as int == -ai,
                        ai == ni * q + ri,
                ;
                vstd::arithmetic::div_mod::lemma_fundamental_div_mod_converse_mod(sum as int, ni, -q - 1, ni - ri);
            }
        }
        if r == 0 {
            0
        } else {
            n - r as i128
        }
    };
    assert(m == (sum as int) % (n as int));
    Some(m as usize)
}

// ---------------------------------------------------------------------------
// The tunnel table
// ---------------------------------------------------------------------------

/// Whether the table shows a tunnel: with a filter open, the lower-cased
/// query must occur in the lower-cased label or in one of the port numbers.
pub open spec fn shown_by(t: TunnelView, query: Option<Seq<char>>) -> bool {
    match query {
        Some(q) => matches_filter(t, lowercased(q)),
        None => true,
    }
}

/// The indices, in order, of the first `n` tunnels that the table shows.
pub open spec fn shown_indices(ts: Seq<TunnelView>, query: Option<Seq<char>>, n: nat) -> Seq<usize>
    decreases n,
{
    if n == 0 {
        Seq::empty()
    } else {
        let before = shown_indices(ts, query, (n - 1) as nat);
        if shown_by(ts[n - 1], query) {
            before.push((n - 1) as usize)
        } else {
            before
        }
    }
}

/// The text of an optional query.
pub open spec fn query_text(q: Option<&str>) -> Option<Seq<char>> {
    match q {
        Some(s) => Some(s@),
        None => None,
    }
}

/// The indices of the tunnels that the table shows under `filter`.
pub fn visible_indices(tunnels: &Vec<Tunnel>, filter: Option<&str>) -> (v: Vec<usize>)
    ensures
        v@ == shown_indices(tunnel_views(tunnels@), query_text(filter), tunnels@.len()),
{
    let query: Option<String> = match filter {
        Some(f) => Some(to_lowercase(f)),
        None => None,
    };
    let ghost views = tunnel_views(tunnels@);
    let ghost q = query_text(filter);
    let mut v: Vec<usize> = Vec::new();
    let mut i: usize = 0;
    while i < tunnels.len()
        invariant
            i <= tunnels@.len(),
            views == tunnel_views(tunnels@),
            q == query_text(filter),
            match query {
                Some(l) => q is Some && l@ == lowercased(q->0),
                None => q is None,
            },
            v@ == shown_indices(views, q, i as nat),
        decreases tunnels@.len() - i,
    {
        let keep = match &query {
            Some(l) => tunnel_matches(&tunnels[i], l.as_str()),
            None => true,
        };
        assert(views[i as int] == tunnels@[i as int]@);
        if keep {
            v.push(i);
        }
        i = i + 1;
    }
    v
}

/// The selection once the table shows `shown` rows: none for an empty table,
/// the first row when nothing was selected, the last row when the selection
/// fell off the end.
pub fn clamp_selection(selected: Option<usize>, shown: usize) -> (s: Option<usize>)
    ensures
        shown == 0 ==> s is None,
        shown > 0 ==> s == Some(
            match selected {
                Some(x) => if x >= shown {
                    (shown - 1) as usize
                } else {
                    x
                },
                None => 0usize,
            },
        ),
{
    if shown == 0 {
        None
    } else {
        match selected {
            Some(x) => if x >= shown {
                Some(shown - 1)
            } else {
                Some(x)
            },
            None => Some(0),
        }
    }
}

/// The tunnel under the selected row, if a row is selected and shown.
pub fn selected_tunnel(visible: &Vec<usize>, selected: Option<usize>) -> (t: Option<usize>)
    ensures
        t == (match selected {
            Some(vi) => if vi < visible@.len() {
                Some(visible@[vi as int])
            } else {
                None
            },
            None => None,
        }),
{
    match selected {
        Some(vi) => if vi < visible.len() {
            Some(visible[vi])
        } else {
            None
        },
        None => None,
    }
}

/// The row to select after adding the tunnel at `added`: its row when the
/// table shows it, else `added` itself.
pub fn selection_after_add(visible: &Vec<usize>, added: usize) -> (r: usize)
    ensures
        (r < visible@.len() && visible@[r as int] == added && forall|k: int|
            0 <= k < r ==> visible@[k] != added) || (r == added && forall|k: int|
            0 <= k < visible@.len() ==> visible@[k] != added),
{
    let mut k: usize = 0;
    while k < visible.len()
        invariant
            k <= visible@.len(),
            forall|j: int| 0 <= j < k ==> visible@[j] != added,
        decreases visible@.len() - k,
    {
        if visible[k] == added {
            return k;
        }
        k = k + 1;
    }
    added
}

/// The direction column: `Forward` for a local forward, `Reverse` for a
/// reverse one.
pub open spec fn direction_word(d: Direction) -> Seq<char> {
    match d {
        Direction::Local => "Forward"@,
        Direction::Reverse => "Reverse"@,
    }
}

/// The direction column of a row.
pub fn row_direction(d: Direction) -> (w: &'static str)
    ensures
        w@ == direction_word(d),
{
    match d {
        Direction::Local => "Forward",
        Direction::Reverse => "Reverse",
    }
}

/// The label column: the label, or `—` when there is none.
pub open spec fn label_cell(t: TunnelView) -> Seq<char> {
    if t.label.len() == 0 {
        "—"@
    } else {
        t.label
    }
}

/// The label column of a row.
pub fn row_label(t: &Tunnel) -> (l: String)
    ensures
        l@ == label_cell(t@),
{
    if t.label.as_str().is_empty() {
        let mut v: Vec<char> = Vec::new();
        push_str(&mut v, "—");
        string_of(&v)
    } else {
        t.label.clone()
    }
}

/// The remote and local port columns. A forward shows the service port as
/// the remote one and the listening port (or `auto`) as the local one; a
/// reverse forward shows its listening port (or the requested one) as the
/// remote one and the service port as the local one.
pub open spec fn port_cells(t: TunnelView) -> (Seq<char>, Seq<char>) {
    match t.direction {
        Direction::Local => (
            decimal(t.source_port as nat),
            match t.bind_port {
                Some(p) => decimal(p as nat),
                None => "auto"@,
            },
        ),
        Direction::Reverse => (
            match t.bind_port {
                Some(p) => decimal(p as nat),
                None => decimal(t.requested_port as nat),
            },
            decimal(t.source_port as nat),
        ),
    }
}

/// The decimal text of a port.
fn port_text(p: u16) -> (s: String)
    ensures
        s@ == decimal(p as nat),
{
    let mut v: Vec<char> = Vec::new();
    push_decimal(&mut v, p as u128);
    string_of(&v)
}

/// The remote and local port columns of a row.
pub fn row_ports(t: &Tunnel) -> (c: (String, String))
    ensures
        (c.0@, c.1@) == port_cells(t@),
{
    match t.direction {
        Direction::Local => {
            let local = match t.bind_port {
                Some(p) => port_text(p),
                None => {
                    let mut v: Vec<char> = Vec::new();
                    push_str(&mut v, "auto");
                    string_of(&v)
                },
            };
            (port_text(t.source_port), local)
        },
        Direction::Reverse => {
            let remote = match t.bind_port {
                Some(p) => port_text(p),
                None => port_text(t.requested_port),
            };
            (remote, port_text(t.source_port))
        },
    }
}

/// The status column: the error when there is one, else `ON`, `MANUAL OFF`,
/// `TARGET DOWN` or `off`.
pub open spec fn status_cell(t: TunnelView) -> Seq<char> {
    match t.error {
        Some(e) => e,
        None => if t.enabled {
            "ON"@
        } else if t.manual_off {
            "MANUAL OFF"@
        } else if !t.present {
            "TARGET DOWN"@
        } else {
            "off"@
        },
    }
}

/// The status column of a row.
pub fn row_status(t: &Tunnel) -> (s: String)
    ensures
        s@ == status_cell(t@),
{
    let word: &str = match &t.error {
        Some(e) => {
            return e.clone();
        },
        None => if t.enabled {
            "ON"
        } else if t.manual_off {
            "MANUAL OFF"
        } else if !t.present {
            "TARGET DOWN"
        } else {
            "off"
        },
    };
    let mut v: Vec<char> = Vec::new();
    push_str(&mut v, word);
    string_of(&v)
}

/// The URL to copy for a tunnel: only an active local forward has one.
pub fn copy_url(t: &Tunnel) -> (u: Option<String>)
    ensures
        match u {
            Some(s) => url_text(t@) != "—"@ && s@ == url_text(t@),
            None => url_text(t@) == "—"@,
        },
{
    let url = tunnel_url(t);
    let dash = string_of(&chars_of("—"));
    if url == dash {
        None
    } else {
        Some(url)
    }
}

// ---------------------------------------------------------------------------
// The form, the filter and the footer
// ---------------------------------------------------------------------------

/// The hint shown in an empty listening-port field.
pub open spec fn placeholder(direction: Direction, index: int, value: Seq<char>) -> Seq<char> {
    if index == 1 && value.len() == 0 {
        match direction {
            Direction::Local => "same as remote port"@,
            Direction::Reverse => "same as local port"@,
        }
    } else {
        ""@
    }
}

/// A line of the form: the field's name, `: ` and its value or hint.
pub open spec fn form_line_text(direction: Direction, index: int, value: Seq<char>) -> Seq<char> {
    field_label(direction, index) + ": "@ + (if value.len() == 0 {
        placeholder(direction, index, value)
    } else {
        value
    })
}

/// The line of field `index` of the form.
pub fn form_line(form: &InlineForm, index: usize) -> (l: String)
    requires
        index < 3,
    ensures
        l@ == form_line_text(form.direction, index as int, form.fields@[index as int]@),
{
    let labels = form.labels();
    let value = &form.fields[index];
    let mut v = chars_of(labels[index]);
    push_str(&mut v, ": ");
    if value.as_str().is_empty() {
        if index == 1 {
            match form.direction {
                Direction::Local => push_str(&mut v, "same as remote port"),
                Direction::Reverse => push_str(&mut v, "same as local port"),
            }
        }
    } else {
        push_str(&mut v, value.as_str());
    }
    proof {
        assert(""@ == Seq::<char>::empty()) by {
            reveal_strlit("");
        }
    }
    string_of(&v)
}

/// What a key does to an open filter: `None` closes it. Escape closes it,
/// enter closes an empty one, backspace closes it once the query is empty,
/// a character extends the query.
pub fn filter_key(key: FormKey, query: String) -> (r: Option<String>)
    ensures
        match key {
            FormKey::Esc => r is None,
            FormKey::Enter => if query@.len() == 0 {
                r is None
            } else {
                r matches Some(q) && q@ == query@
            },
            FormKey::Backspace => if query@.len() <= 1 {
                r is None
            } else {
                r matches Some(q) && q@ == query@.drop_last()
            },
            FormKey::Char(c) => r matches Some(q) && q@ == query@.push(c),
            _ => r matches Some(q) && q@ == query@,
        },
{
    match key {
        FormKey::Esc => None,
        FormKey::Enter => if query.as_str().is_empty() {
            None
        } else {
            Some(query)
        },
        FormKey::Backspace => {
            let shorter = without_last(&query);
            if shorter.as_str().is_empty() {
                None
            } else {
                Some(shorter)
            }
        },
        FormKey::Char(c) => {
            let mut longer = query;
            push_char(&mut longer, c);
            Some(longer)
        },
        _ => Some(query),
    }
}

/// The help line with every key of the table.
pub open spec fn full_help() -> Seq<char> {
    "↑↓ Select  Space Toggle  a Forward  v Reverse  e Edit  d Remove  r Rescan  p Fwd image  c Copy URL  / Filter  ? Help  q Quit"@
}

/// The footer: under the selection gutter, the form's help, the filter's
/// help, the current notice, the full help or the hint to ask for it.
pub open spec fn footer_text(
    form_open: bool,
    filter_open: bool,
    notice: Option<Seq<char>>,
    show_help: bool,
) -> Seq<char> {
    "  "@ + if form_open {
        "↑↓ Select  Enter Next/Save  Esc Cancel"@
    } else if filter_open {
        "Type to filter  Esc Clear  Enter Confirm"@
    } else {
        match notice {
            Some(n) => n,
            None => if show_help {
                full_help()
            } else {
                "? Help"@
            },
        }
    }
}

/// The footer line of the table.
pub fn footer(form_open: bool, filter_open: bool, notice: Option<&str>, show_help: bool) -> (f: String)
    ensures
        f@ == footer_text(form_open, filter_open, query_text(notice), show_help),
{
    let mut v = chars_of("  ");
    if form_open {
        push_str(&mut v, InlineForm::help_line());
    } else if filter_open {
        push_str(&mut v, "Type to filter  Esc Clear  Enter Confirm");
    } else {
        match notice {
            Some(n) => push_str(&mut v, n),
            None => if show_help {
                push_str(
                    &mut v,
                    "↑↓ Select  Space Toggle  a Forward  v Reverse  e Edit  d Remove  r Rescan  p Fwd image  c Copy URL  / Filter  ? Help  q Quit",
                );
            } else {
                push_str(&mut v, "? Help");
            },
        }
    }
    string_of(&v)
}

/// The title of the table: `──autotun─` and the destination.
pub fn table_title(destination: &str) -> (t: String)
    ensures
        t@ == "──autotun─"@ + destination@ + " "@,
{
    let mut v = chars_of("──autotun─");
    push_str(&mut v, destination);
    push_str(&mut v, " ");
    string_of(&v)
}

/// What a key does while the table has the keyboard.
#[derive(Clone, Copy, Debug, PartialEq, Eq, Structural)]
pub enum TableAction {
    Quit,
    MoveDown,
    MoveUp,
    Toggle,
    Edit,
    AddForward,
    AddReverse,
    Delete,
    Rescan,
    PushImage,
    StartFilter,
    CopyUrl,
    ToggleHelp,
    Nothing,
}

/// The key map of the table: `q` and Esc quit, the arrows and `j` / `k`
/// move, Space and Enter switch the selected tunnel on or off, `e` edits it,
/// `a` and `v` add a forward or a reverse forward, `d` deletes, `r` rescans,
/// `p` forwards a clipboard image, `/` filters, `c` copies the URL and `?`
/// shows the help.
pub open spec fn action_of(key: FormKey) -> TableAction {
    match key {
        FormKey::Esc => TableAction::Quit,
        FormKey::Down => TableAction::MoveDown,
        FormKey::Up => TableAction::MoveUp,
        FormKey::Enter => TableAction::Toggle,
        FormKey::Char(c) => if c == 'q' {
            TableAction::Quit
        } else if c == 'j' {
            TableAction::MoveDown
        } else if c == 'k' {
            TableAction::MoveUp
        } else if c == ' ' {
            TableAction::Toggle
        } else if c == 'e' {
            TableAction::Edit
        } else if c == 'a' {
            TableAction::AddForward
        } else if c == 'v' {
            TableAction::AddReverse
        } else if c == 'd' {
            TableAction::Delete
        } else if c == 'r' {
            TableAction::Rescan
        } else if c == 'p' {
            TableAction::PushImage
        } else if c == '/' {
            TableAction::StartFilter
        } else if c == 'c' {
            TableAction::CopyUrl
        } else if c == '?' {
            TableAction::ToggleHelp
        } else {
            TableAction::Nothing
        },
        _ => TableAction::Nothing,
    }
}

/// What a key does while the table has the keyboard.
pub fn table_action(key: FormKey) -> (a: TableAction)
    ensures
        a == action_of(key),
{
    match key {
        FormKey::Esc => TableAction::Quit,
        FormKey::Down => TableAction::MoveDown,
        FormKey::Up => TableAction::MoveUp,
        FormKey::Enter => TableAction::Toggle,
        FormKey::Char(c) => match c {
            'q' => TableAction::Quit,
            'j' => TableAction::MoveDown,
            'k' => TableAction::MoveUp,
            ' ' => TableAction::Toggle,
            'e' => TableAction::Edit,
            'a' => TableAction::AddForward,
            'v' => TableAction::AddReverse,
            'd' => TableAction::Delete,
            'r' => TableAction::Rescan,
            'p' => TableAction::PushImage,
            '/' => TableAction::StartFilter,
            'c' => TableAction::CopyUrl,
            '?' => TableAction::ToggleHelp,
            _ => TableAction::Nothing,
        },
        _ => TableAction::Nothing,
    }
}

/// Whether the form stays open after a key: it closes once the tunnel it
/// describes is saved, and on Esc.
pub fn form_stays_open(key: FormKey, saved: bool) -> (b: bool)
    ensures
        b == (!saved && key != FormKey::Esc),
{
    !saved && key != FormKey::Esc
}

/// The selection after deleting a tunnel: none once no tunnel is left,
/// otherwise unchanged (it is brought within the shown rows on the next
/// draw, see [`clamp_selection`]).
pub fn selection_after_delete(selected: Option<usize>, remaining: usize) -> (s: Option<usize>)
    ensures
        s == (if remaining == 0 {
            None
        } else {
            selected
        }),
{
    if remaining == 0 {
        None
    } else {
        selected
    }
}

/// The help key: the full help is shown or hidden in turn, and the notice is
/// cleared. Returns whether the help is shown and whether to clear the notice.
pub fn toggle_help(show_help: bool) -> (r: (bool, bool))
    ensures
        r == (!show_help, true),
{
    (!show_help, true)
}

} // verus!

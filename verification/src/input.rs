//! Turning queued MCP inputs into the pointer, key and text events that
//! the egui application receives.
//!
//! Coordinates are of a type `C` chosen by the application (the screen
//! coordinate type); the logic here only places them in events.

use vstd::prelude::*;
use crate::protocol::MouseButton;

verus! {

/// An input event waiting to be processed by the egui application.
pub enum PendingInput<C> {
    /// Click at coordinates.
    Click { x: C, y: C, button: MouseButton },
    /// Double click at coordinates.
    DoubleClick { x: C, y: C, button: MouseButton },
    /// Move the mouse to coordinates.
    MoveMouse { x: C, y: C },
    /// Keyboard input: a special key name or text.
    Keyboard { key: String },
    /// Scroll at coordinates.
    Scroll { x: C, y: C, delta_x: C, delta_y: C },
    /// Drag from a start point to an end point.
    Drag { start_x: C, start_y: C, end_x: C, end_y: C, button: MouseButton },
}

/// Pointer buttons of the GUI toolkit.
#[derive(Clone, Copy, PartialEq, Eq, Structural, Debug)]
pub enum PointerButton {
    Primary,
    Secondary,
    Middle,
}

/// Keys that a keyboard input names instead of typing text.
#[derive(Clone, Copy, PartialEq, Eq, Structural, Debug)]
pub enum SpecialKey {
    Enter,
    Tab,
    Backspace,
    Delete,
    Escape,
    Space,
    ArrowUp,
    ArrowDown,
    ArrowLeft,
    ArrowRight,
    Home,
    End,
    PageUp,
    PageDown,
    Insert,
    F1,
    F2,
    F3,
    F4,
    F5,
    F6,
    F7,
    F8,
    F9,
    F10,
    F11,
    F12,
}

/// An event handed to the GUI toolkit.
pub enum InputEvent<C> {
    /// The pointer moved to a position.
    PointerMoved { x: C, y: C },
    /// A pointer button was pressed or released at a position.
    PointerButton { x: C, y: C, button: PointerButton, pressed: bool },
    /// A special key was pressed or released.
    Key { key: SpecialKey, pressed: bool },
    /// Text was typed.
    Text(String),
    /// The mouse wheel scrolled by a delta (in points).
    MouseWheel { delta_x: C, delta_y: C },
}

/// View of an `InputEvent`.
pub enum EventView<C> {
    PointerMoved { x: C, y: C },
    PointerButton { x: C, y: C, button: PointerButton, pressed: bool },
    Key { key: SpecialKey, pressed: bool },
    Text(Seq<char>),
    MouseWheel { delta_x: C, delta_y: C },
}

impl<C> View for InputEvent<C> {
    type V = EventView<C>;

    open spec fn view(&self) -> EventView<C> {
        match self {
            InputEvent::PointerMoved { x, y } => EventView::PointerMoved { x: *x, y: *y },
            InputEvent::PointerButton { x, y, button, pressed } => EventView::PointerButton {
                x: *x,
                y: *y,
                button: *button,
                pressed: *pressed,
            },
            InputEvent::Key { key, pressed } => EventView::Key { key: *key, pressed: *pressed },
            InputEvent::Text(s) => EventView::Text(s@),
            InputEvent::MouseWheel { delta_x, delta_y } => EventView::MouseWheel {
                delta_x: *delta_x,
                delta_y: *delta_y,
            },
        }
    }
}

/// Toolkit button for a protocol mouse button.
pub open spec fn spec_pointer_button(b: MouseButton) -> PointerButton {
    match b {
        MouseButton::Left => PointerButton::Primary,
        MouseButton::Right => PointerButton::Secondary,
        MouseButton::Middle => PointerButton::Middle,
    }
}

/// Converts a protocol mouse button to the toolkit's button.
pub fn convert_mouse_button(button: MouseButton) -> (p: PointerButton)
    ensures
        p == spec_pointer_button(button),
{
    match button {
        MouseButton::Left => PointerButton::Primary,
        MouseButton::Right => PointerButton::Secondary,
        MouseButton::Middle => PointerButton::Middle,
    }
}

/// What `str::to_lowercase` gives for a string (Unicode lower-case mapping).
pub uninterp spec fn lowercase_of(s: Seq<char>) -> Seq<char>;

/// ASCII lower-casing: 'A'..='Z' become 'a'..='z', everything else stays.
pub open spec fn ascii_lower(s: Seq<char>) -> Seq<char> {
    s.map_values(|c: char| if 'A' <= c <= 'Z' { ((c as u32) + 32) as char } else { c })
}

/// Calls `str::to_lowercase`; the result is named by `lowercase_of`. On
/// ASCII text the Unicode lower-case mapping is the ASCII one.
#[verifier::external_body]
pub(crate) fn str_to_lowercase(s: &str) -> (res: String)
    ensures
        res@ == lowercase_of(s@),
        vstd::utf8::is_ascii_chars(s@) ==> res@ == ascii_lower(s@),
{
    s.to_lowercase()
}

/// The special key that a lower-cased key name denotes.
pub open spec fn special_key_of_lower(s: Seq<char>) -> Option<SpecialKey> {
    if s == "enter"@ || s == "return"@ {
        Some(SpecialKey::Enter)
    } else if s == "tab"@ {
        Some(SpecialKey::Tab)
    } else if s == "backspace"@ {
        Some(SpecialKey::Backspace)
    } else if s == "delete"@ {
        Some(SpecialKey::Delete)
    } else if s == "escape"@ || s == "esc"@ {
        Some(SpecialKey::Escape)
    } else if s == "space"@ {
        Some(SpecialKey::Space)
    } else if s == "arrowup"@ || s == "up"@ {
        Some(SpecialKey::ArrowUp)
    } else if s == "arrowdown"@ || s == "down"@ {
        Some(SpecialKey::ArrowDown)
    } else if s == "arrowleft"@ || s == "left"@ {
        Some(SpecialKey::ArrowLeft)
    } else if s == "arrowright"@ || s == "right"@ {
        Some(SpecialKey::ArrowRight)
    } else if s == "home"@ {
        Some(SpecialKey::Home)
    } else if s == "end"@ {
        Some(SpecialKey::End)
    } else if s == "pageup"@ {
        Some(SpecialKey::PageUp)
    } else if s == "pagedown"@ {
        Some(SpecialKey::PageDown)
    } else if s == "insert"@ {
        Some(SpecialKey::Insert)
    } else if s == "f1"@ {
        Some(SpecialKey::F1)
    } else if s == "f2"@ {
        Some(SpecialKey::F2)
    } else if s == "f3"@ {
        Some(SpecialKey::F3)
    } else if s == "f4"@ {
        Some(SpecialKey::F4)
    } else if s == "f5"@ {
        Some(SpecialKey::F5)
    } else if s == "f6"@ {
        Some(SpecialKey::F6)
    } else if s == "f7"@ {
        Some(SpecialKey::F7)
    } else if s == "f8"@ {
        Some(SpecialKey::F8)
    } else if s == "f9"@ {
        Some(SpecialKey::F9)
    } else if s == "f10"@ {
        Some(SpecialKey::F10)
    } else if s == "f11"@ {
        Some(SpecialKey::F11)
    } else if s == "f12"@ {
        Some(SpecialKey::F12)
    } else {
        None
    }
}

/// The special key that a key name denotes, compared without regard to case.
pub open spec fn spec_special_key(key: Seq<char>) -> Option<SpecialKey> {
    special_key_of_lower(lowercase_of(key))
}

fn is(s: &String, lit: &str) -> (r: bool)
    ensures
        r == (s@ == lit@),
{
    *s == String::from_str(lit)
}

/// Looks up a lower-cased key name.
pub fn special_key_from_lower(lower: &str) -> (k: Option<SpecialKey>)
    ensures
        k == special_key_of_lower(lower@),
{
    let s = String::from_str(lower);
    if is(&s, "enter") || is(&s, "return") {
        Some(SpecialKey::Enter)
    } else if is(&s, "tab") {
        Some(SpecialKey::Tab)
    } else if is(&s, "backspace") {
        Some(SpecialKey::Backspace)
    } else if is(&s, "delete") {
        Some(SpecialKey::Delete)
    } else if is(&s, "escape") || is(&s, "esc") {
        Some(SpecialKey::Escape)
    } else if is(&s, "space") {
        Some(SpecialKey::Space)
    } else if is(&s, "arrowup") || is(&s, "up") {
        Some(SpecialKey::ArrowUp)
    } else if is(&s, "arrowdown") || is(&s, "down") {
        Some(SpecialKey::ArrowDown)
    } else if is(&s, "arrowleft") || is(&s, "left") {
        Some(SpecialKey::ArrowLeft)
    } else if is(&s, "arrowright") || is(&s, "right") {
        Some(SpecialKey::ArrowRight)
    } else if is(&s, "home") {
        Some(SpecialKey::Home)
    } else if is(&s, "end") {
        Some(SpecialKey::End)
    } else if is(&s, "pageup") {
        Some(SpecialKey::PageUp)
    } else if is(&s, "pagedown") {
        Some(SpecialKey::PageDown)
    } else if is(&s, "insert") {
        Some(SpecialKey::Insert)
    } else if is(&s, "f1") {
        Some(SpecialKey::F1)
    } else if is(&s, "f2") {
        Some(SpecialKey::F2)
    } else if is(&s, "f3") {
        Some(SpecialKey::F3)
    } else if is(&s, "f4") {
        Some(SpecialKey::F4)
    } else if is(&s, "f5") {
        Some(SpecialKey::F5)
    } else if is(&s, "f6") {
        Some(SpecialKey::F6)
    } else if is(&s, "f7") {
        Some(SpecialKey::F7)
    } else if is(&s, "f8") {
        Some(SpecialKey::F8)
    } else if is(&s, "f9") {
        Some(SpecialKey::F9)
    } else if is(&s, "f10") {
        Some(SpecialKey::F10)
    } else if is(&s, "f11") {
        Some(SpecialKey::F11)
    } else if is(&s, "f12") {
        Some(SpecialKey::F12)
    } else {
        None
    }
}

/// The special key named by `key` (any case), if it names one.
pub fn parse_special_key(key: &str) -> (k: Option<SpecialKey>)
    ensures
        k == spec_special_key(key@),
        vstd::utf8::is_ascii_chars(key@) ==> k == special_key_of_lower(ascii_lower(key@)),
{
    let lower = str_to_lowercase(key);
    special_key_from_lower(lower.as_str())
}


/// Press-then-release of a pointer button at a position.
pub open spec fn press_release<C>(x: C, y: C, b: PointerButton) -> Seq<EventView<C>> {
    seq![
        EventView::PointerButton { x, y, button: b, pressed: true },
        EventView::PointerButton { x, y, button: b, pressed: false },
    ]
}

/// The events that one queued input becomes.
pub open spec fn events_for<C>(input: PendingInput<C>) -> Seq<EventView<C>> {
    match input {
        PendingInput::MoveMouse { x, y } => seq![EventView::PointerMoved { x, y }],
        PendingInput::Click { x, y, button } => seq![EventView::PointerMoved { x, y }]
            + press_release(x, y, spec_pointer_button(button)),
        PendingInput::DoubleClick { x, y, button } => seq![EventView::PointerMoved { x, y }]
            + press_release(x, y, spec_pointer_button(button)) + press_release(
            x,
            y,
            spec_pointer_button(button),
        ),
        PendingInput::Drag { start_x, start_y, end_x, end_y, button } => seq![
            EventView::PointerMoved { x: start_x, y: start_y },
            EventView::PointerButton {
                x: start_x,
                y: start_y,
                button: spec_pointer_button(button),
                pressed: true,
            },
            EventView::PointerMoved { x: end_x, y: end_y },
            EventView::PointerButton {
                x: end_x,
                y: end_y,
                button: spec_pointer_button(button),
                pressed: false,
            },
        ],
        PendingInput::Keyboard { key } => match spec_special_key(key@) {
            Some(k) => seq![
                EventView::Key { key: k, pressed: true },
                EventView::Key { key: k, pressed: false },
            ],
            None => seq![EventView::Text(key@)],
        },
        PendingInput::Scroll { x, y, delta_x, delta_y } => seq![
            EventView::PointerMoved { x, y },
            EventView::MouseWheel { delta_x, delta_y },
        ],
    }
}

/// The events that a sequence of queued inputs becomes, in order.
pub open spec fn events_for_all<C>(inputs: Seq<PendingInput<C>>) -> Seq<EventView<C>>
    decreases inputs.len(),
{
    if inputs.len() == 0 {
        Seq::empty()
    } else {
        events_for_all(inputs.drop_last()) + events_for(inputs.last())
    }
}

fn push_press_release<C: Copy>(out: &mut Vec<InputEvent<C>>, x: C, y: C, b: PointerButton)
    ensures
        final(out)@.map_values(|e: InputEvent<C>| e@) == old(out)@.map_values(
            |e: InputEvent<C>| e@,
        ) + press_release(x, y, b),
{
    let ghost before = out@.map_values(|e: InputEvent<C>| e@);
    out.push(InputEvent::PointerButton { x, y, button: b, pressed: true });
    out.push(InputEvent::PointerButton { x, y, button: b, pressed: false });
    assert(out@.map_values(|e: InputEvent<C>| e@) =~= before + press_release(x, y, b));
}

/// Appends the events of one queued input to `out`.
pub fn push_input_events<C: Copy>(out: &mut Vec<InputEvent<C>>, input: PendingInput<C>)
    ensures
        final(out)@.map_values(|e: InputEvent<C>| e@) == old(out)@.map_values(
            |e: InputEvent<C>| e@,
        ) + events_for(input),
{
    let ghost before = out@.map_values(|e: InputEvent<C>| e@);
    let ghost spec_input = input;
    match input {
        PendingInput::MoveMouse { x, y } => {
            out.push(InputEvent::PointerMoved { x, y });
        },
        PendingInput::Click { x, y, button } => {
            let b = convert_mouse_button(button);
            out.push(InputEvent::PointerMoved { x, y });
            push_press_release(out, x, y, b);
        },
        PendingInput::DoubleClick { x, y, button } => {
            let b = convert_mouse_button(button);
            out.push(InputEvent::PointerMoved { x, y });
            push_press_release(out, x, y, b);
            push_press_release(out, x, y, b);
        },
        PendingInput::Drag { start_x, start_y, end_x, end_y, button } => {
            let b = convert_mouse_button(button);
            out.push(InputEvent::PointerMoved { x: start_x, y: start_y });
            out.push(InputEvent::PointerButton { x: start_x, y: start_y, button: b, pressed: true });
            out.push(InputEvent::PointerMoved { x: end_x, y: end_y });
            out.push(InputEvent::PointerButton { x: end_x, y: end_y, button: b, pressed: false });
        },
        PendingInput::Keyboard { key } => {
            match parse_special_key(key.as_str()) {
                Some(k) => {
                    out.push(InputEvent::Key { key: k, pressed: true });
                    out.push(InputEvent::Key { key: k, pressed: false });
                },
                None => {
                    out.push(InputEvent::Text(key));
                },
            }
        },
        PendingInput::Scroll { x, y, delta_x, delta_y } => {
            out.push(InputEvent::PointerMoved { x, y });
            out.push(InputEvent::MouseWheel { delta_x, delta_y });
        },
    }
    assert(out@.map_values(|e: InputEvent<C>| e@) =~= before + events_for(spec_input));
}

/// The events for a batch of queued inputs, in order, ready to be appended
/// to the toolkit's raw input. An empty batch gives no events.
pub fn input_events<C: Copy>(inputs: Vec<PendingInput<C>>) -> (out: Vec<InputEvent<C>>)
    ensures
        out@.map_values(|e: InputEvent<C>| e@) == events_for_all(inputs@),
{
    let mut out: Vec<InputEvent<C>> = Vec::new();
    let ghost all = inputs@;
    for input in it: inputs.into_iter()
        invariant
            it.seq() == all,
            out@.map_values(|e: InputEvent<C>| e@) == events_for_all(all.take(it.index())),
    {
        assert(all.take(it.index() + 1).drop_last() =~= all.take(it.index()));
        push_input_events(&mut out, input);
    }
    assert(all.take(all.len() as int) =~= all);
    out
}


/// Every pointer button event happens where the pointer is: at the
/// position of the last pointer move before it, with no other pointer move
/// in between.
pub open spec fn buttons_at_pointer<C>(evs: Seq<EventView<C>>) -> bool {
    forall|i: int|
        0 <= i < evs.len() && (#[trigger] evs[i]) is PointerButton ==> exists|j: int|
            0 <= j < i && #[trigger] evs[j] == (EventView::PointerMoved {
                x: evs[i]->PointerButton_x,
                y: evs[i]->PointerButton_y,
            }) && forall|k: int| j < k < i ==> !((#[trigger] evs[k]) is PointerMoved)
}

proof fn lemma_buttons_at_pointer_concat<C>(s: Seq<EventView<C>>, t: Seq<EventView<C>>)
    requires
        buttons_at_pointer(s),
        buttons_at_pointer(t),
    ensures
        buttons_at_pointer(s + t),
{
    let st = s + t;
    assert forall|i: int| 0 <= i < st.len() && (#[trigger] st[i]) is PointerButton implies exists|
        j: int,
    |
        0 <= j < i && #[trigger] st[j] == (EventView::PointerMoved {
            x: st[i]->PointerButton_x,
            y: st[i]->PointerButton_y,
        }) && forall|k: int| j < k < i ==> !((#[trigger] st[k]) is PointerMoved) by {
        if i < s.len() {
            assert(st[i] == s[i]);
            let j = choose|j: int|
                0 <= j < i && #[trigger] s[j] == (EventView::PointerMoved {
                    x: s[i]->PointerButton_x,
                    y: s[i]->PointerButton_y,
                }) && forall|k: int| j < k < i ==> !((#[trigger] s[k]) is PointerMoved);
            assert(st[j] == s[j]);
            assert forall|k: int| j < k < i implies !((#[trigger] st[k]) is PointerMoved) by {
                assert(st[k] == s[k]);
            }
        } else {
            let n = s.len() as int;
            let i2 = i - n;
            assert(st[i] == t[i2]);
            assert(t[i2] is PointerButton);
            let j2 = choose|j: int|
                0 <= j < i2 && #[trigger] t[j] == (EventView::PointerMoved {
                    x: t[i2]->PointerButton_x,
                    y: t[i2]->PointerButton_y,
                }) && forall|k: int| j < k < i2 ==> !((#[trigger] t[k]) is PointerMoved);
            let j = j2 + n;
            assert(st[j] == t[j2]);
            assert forall|k: int| j < k < i implies !((#[trigger] st[k]) is PointerMoved) by {
                assert(st[k] == t[k - n]);
            }
        }
    }
}

/// In the events of any queued input, every pointer button is pressed or
/// released where the pointer was last moved: a click at its position, a
/// drag pressed at its start and released at its end.
pub proof fn lemma_input_buttons_at_pointer<C>(input: PendingInput<C>)
    ensures
        buttons_at_pointer(events_for(input)),
{
    let evs = events_for(input);
    assert forall|i: int| 0 <= i < evs.len() && (#[trigger] evs[i]) is PointerButton implies exists|
        j: int,
    |
        0 <= j < i && #[trigger] evs[j] == (EventView::PointerMoved {
            x: evs[i]->PointerButton_x,
            y: evs[i]->PointerButton_y,
        }) && forall|k: int| j < k < i ==> !((#[trigger] evs[k]) is PointerMoved) by {
        match input {
            PendingInput::Drag { start_x, start_y, end_x, end_y, button } => {
                if i == 1 {
                    assert(evs[0] == (EventView::PointerMoved { x: start_x, y: start_y }));
                } else {
                    assert(i == 3);
                    assert(evs[2] == (EventView::PointerMoved { x: end_x, y: end_y }));
                }
            },
            PendingInput::Click { x, y, button } => {
                assert(evs[0] == (EventView::PointerMoved { x, y }));
                assert forall|k: int| 0 < k < i implies !((#[trigger] evs[k]) is PointerMoved) by {}
            },
            PendingInput::DoubleClick { x, y, button } => {
                assert(evs[0] == (EventView::PointerMoved { x, y }));
                assert forall|k: int| 0 < k < i implies !((#[trigger] evs[k]) is PointerMoved) by {}
            },
            PendingInput::Keyboard { key } => {
                match spec_special_key(key@) {
                    Some(k) => {},
                    None => {},
                }
            },
            _ => {},
        }
    }
}

/// The events of a batch are the events of its inputs one after another.
pub proof fn lemma_events_for_all_concat<C>(s: Seq<PendingInput<C>>, t: Seq<PendingInput<C>>)
    ensures
        events_for_all(s + t) == events_for_all(s) + events_for_all(t),
    decreases t.len(),
{
    if t.len() == 0 {
        assert(s + t =~= s);
        assert(events_for_all(s) + events_for_all(t) =~= events_for_all(s));
    } else {
        lemma_events_for_all_concat(s, t.drop_last());
        assert((s + t).drop_last() =~= s + t.drop_last());
        assert((s + t).last() == t.last());
        assert(events_for_all(s + t) =~= events_for_all(s) + events_for_all(t));
    }
}

/// In the events of any batch of queued inputs, every pointer button event
/// is at the position of the last pointer move before it.
pub proof fn lemma_batch_buttons_at_pointer<C>(inputs: Seq<PendingInput<C>>)
    ensures
        buttons_at_pointer(events_for_all(inputs)),
    decreases inputs.len(),
{
    if inputs.len() == 0 {
        assert(events_for_all(inputs).len() == 0);
    } else {
        lemma_batch_buttons_at_pointer(inputs.drop_last());
        lemma_input_buttons_at_pointer(inputs.last());
        lemma_buttons_at_pointer_concat(events_for_all(inputs.drop_last()), events_for(inputs.last()));
    }
}

/// A drag moves the pointer to its start, presses the button there, moves
/// to its end and releases the button there: the last event is the release
/// at the end point.
pub proof fn lemma_drag_events<C>(start_x: C, start_y: C, end_x: C, end_y: C, button: MouseButton)
    ensures
        ({
            let evs = events_for(
                PendingInput::Drag { start_x, start_y, end_x, end_y, button },
            );
            &&& evs.len() == 4
            &&& evs[0] == (EventView::PointerMoved { x: start_x, y: start_y })
            &&& evs[1] is PointerButton && evs[1]->PointerButton_pressed
                && evs[1]->PointerButton_x == start_x && evs[1]->PointerButton_y == start_y
            &&& evs[3] is PointerButton && !evs[3]->PointerButton_pressed
                && evs[3]->PointerButton_x == end_x && evs[3]->PointerButton_y == end_y
            &&& evs[1]->PointerButton_button == evs[3]->PointerButton_button
            &&& (button == MouseButton::Left ==> evs[1]->PointerButton_button
                == PointerButton::Primary)
            &&& (button == MouseButton::Right ==> evs[1]->PointerButton_button
                == PointerButton::Secondary)
            &&& (button == MouseButton::Middle ==> evs[1]->PointerButton_button
                == PointerButton::Middle)
        }),
{
}


/// Protocol buttons map to toolkit buttons: left to primary, right to
/// secondary, middle to middle.
pub proof fn lemma_button_mapping()
    ensures
        spec_pointer_button(MouseButton::Left) == PointerButton::Primary,
        spec_pointer_button(MouseButton::Right) == PointerButton::Secondary,
        spec_pointer_button(MouseButton::Middle) == PointerButton::Middle,
{
}

/// A click moves the pointer to its position, then presses and releases
/// its button there. A double click does the same with two press-release
/// pairs.
pub proof fn lemma_click_events<C>(x: C, y: C, button: MouseButton)
    ensures
        ({
            let b = spec_pointer_button(button);
            let press = EventView::PointerButton { x, y, button: b, pressed: true };
            let release = EventView::PointerButton { x, y, button: b, pressed: false };
            let one = events_for(PendingInput::Click { x, y, button });
            let two = events_for(PendingInput::DoubleClick { x, y, button });
            &&& one.len() == 3
            &&& one[0] == (EventView::PointerMoved { x, y })
            &&& one[1] == press
            &&& one[2] == release
            &&& two.len() == 5
            &&& two[0] == (EventView::PointerMoved { x, y })
            &&& two[1] == press
            &&& two[2] == release
            &&& two[3] == press
            &&& two[4] == release
        }),
{
}

/// A mouse move is one pointer move to its position; a scroll moves the
/// pointer to its position and then turns the wheel by its deltas.
pub proof fn lemma_move_and_scroll_events<C>(x: C, y: C, delta_x: C, delta_y: C)
    ensures
        events_for(PendingInput::MoveMouse { x, y }) == seq![EventView::PointerMoved { x, y }],
        events_for(PendingInput::Scroll { x, y, delta_x, delta_y }).len() == 2,
        events_for(PendingInput::Scroll { x, y, delta_x, delta_y })[0] == (EventView::PointerMoved {
            x,
            y,
        }),
        events_for(PendingInput::Scroll { x, y, delta_x, delta_y })[1] == (EventView::MouseWheel {
            delta_x,
            delta_y,
        }),
{
    assert(events_for(PendingInput::MoveMouse { x, y }) =~= seq![EventView::PointerMoved { x, y }]);
}

/// Keyboard input that names a special key presses and releases that key;
/// any other keyboard input is typed as text, unchanged.
pub proof fn lemma_keyboard_events<C>(key: String)
    ensures
        spec_special_key(key@) is Some ==> events_for(PendingInput::<C>::Keyboard { key }) == seq![
            EventView::<C>::Key { key: spec_special_key(key@)->0, pressed: true },
            EventView::<C>::Key { key: spec_special_key(key@)->0, pressed: false },
        ],
        spec_special_key(key@) is None ==> events_for(PendingInput::<C>::Keyboard { key }) == seq![
            EventView::<C>::Text(key@),
        ],
{
}


/// An empty batch gives no events, and a batch of one input gives that
/// input's events.
pub proof fn lemma_events_for_small_batches<C>(input: PendingInput<C>)
    ensures
        events_for_all(Seq::<PendingInput<C>>::empty()) == Seq::<EventView<C>>::empty(),
        events_for_all(seq![input]) == events_for(input),
{
    let one = seq![input];
    assert(one.len() == 1);
    assert(one.drop_last() =~= Seq::<PendingInput<C>>::empty());
    assert(one.last() == input);
    assert(events_for_all(one.drop_last()) == Seq::<EventView<C>>::empty());
    assert(events_for_all(one) == events_for_all(one.drop_last()) + events_for(one.last()));
    assert(events_for_all(one) =~= events_for(input));
}

} // verus!

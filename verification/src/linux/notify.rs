//! Desktop notifications, with buttons.
//!
//! Buttons are only added where the desktop reports `actions` support;
//! otherwise the notification falls back to naming `acryliusctl`. An invoked
//! action is only reported here, never acted on.
use crate::text::{chars_of, holds, texts};
use vstd::prelude::*;
use vstd::string::StringExecFns;

verus! {

/// A button on a notification, once somebody has pressed it.
#[derive(Clone, Debug, PartialEq, Eq)]
pub struct Pressed {
    pub id: u32,
    pub action: String,
}

/// One button: the key reported back, and the label drawn on it.
pub struct Button<'a> {
    pub key: &'a str,
    pub label: &'a str,
}

/// What a desktop does with a notification.
pub struct Notifier {
    /// Whether this desktop draws buttons on notifications.
    buttons: bool,
    /// Whether this desktop renders markup in a body; escaping unconditionally
    /// would turn `Q&A.pdf` into `Q&amp;A.pdf` on a server that shows it literally.
    markup: bool,
}

/// A character as it is written where markup is rendered.
pub open spec fn escaped(c: char) -> Seq<char> {
    if c == '&' {
        "&amp;"@
    } else if c == '<' {
        "&lt;"@
    } else if c == '>' {
        "&gt;"@
    } else {
        seq![c]
    }
}

/// A text with each of its characters escaped.
pub open spec fn escaped_text(t: Seq<char>) -> Seq<char>
    decreases t.len(),
{
    if t.len() == 0 {
        Seq::empty()
    } else {
        escaped_text(t.drop_last()) + escaped(t.last())
    }
}

/// Escape the markup subset a notification body may be parsed for.
///
/// GNOME/KDE render `<b>`/`<i>`/`<u>`/`<a href>` in bodies, so a peer-chosen
/// name left unescaped could draw a link or hide the question.
pub fn escape_markup(text: &str) -> (r: String)
    ensures
        r@ == escaped_text(text@),
{
    let all = chars_of(text);
    let mut out = String::new();
    proof {
        assert(all@.take(0) =~= Seq::<char>::empty());
        assert(out@ =~= escaped_text(all@.take(0)));
    }
    for i in 0..all.len()
        invariant
            all@ == text@,
            out@ == escaped_text(all@.take(i as int)),
    {
        let c: char = all[i];
        proof {
            assert(all@.take(i + 1).drop_last() =~= all@.take(i as int));
            assert(all@.take(i + 1).last() == c);
        }
        if c == '&' {
            out.append("&amp;");
        } else if c == '<' {
            out.append("&lt;");
        } else if c == '>' {
            out.append("&gt;");
        } else {
            out.push(c);
            assert(out@ =~= escaped_text(all@.take(i as int)) + seq![c]);
        }
    }
    assert(all@.take(all@.len() as int) =~= all@);
    out
}

/// Whether a character opens or closes a tag.
pub open spec fn is_bracket(c: char) -> bool {
    c == '<' || c == '>'
}

/// Escaped text holds no tag, whatever was in it.
pub proof fn escaped_text_has_no_tags(t: Seq<char>)
    ensures
        forall|k: int| 0 <= k < escaped_text(t).len() ==> !is_bracket(#[trigger] escaped_text(t)[k]),
    decreases t.len(),
{
    if t.len() > 0 {
        escaped_text_has_no_tags(t.drop_last());
        reveal_strlit("&amp;");
        reveal_strlit("&lt;");
        reveal_strlit("&gt;");
        let start = escaped_text(t.drop_last());
        let end = escaped(t.last());
        assert forall|k: int| 0 <= k < end.len() implies !is_bracket(#[trigger] end[k]) by {}
        assert forall|k: int| 0 <= k < escaped_text(t).len() implies !is_bracket(
            #[trigger] escaped_text(t)[k],
        ) by {
            if k < start.len() {
                assert(escaped_text(t)[k] == start[k]);
            } else {
                assert(escaped_text(t)[k] == end[k - start.len()]);
            }
        }
    }
}

/// A text with nothing to escape is left alone.
pub proof fn plain_text_is_left_alone(t: Seq<char>)
    requires
        forall|k: int| 0 <= k < t.len() ==> !is_bracket(#[trigger] t[k]) && t[k] != '&',
    ensures
        escaped_text(t) == t,
    decreases t.len(),
{
    if t.len() > 0 {
        assert forall|k: int| 0 <= k < t.drop_last().len() implies !is_bracket(
            #[trigger] t.drop_last()[k],
        ) && t.drop_last()[k] != '&' by {
            assert(t.drop_last()[k] == t[k]);
        }
        plain_text_is_left_alone(t.drop_last());
        assert(!is_bracket(t[t.len() - 1]));
        assert(escaped_text(t) =~= t);
    } else {
        assert(escaped_text(t) =~= t);
    }
}

/// The keys and labels of the buttons, one after the other.
pub open spec fn button_texts(buttons: Seq<Button>) -> Seq<Seq<char>>
    decreases buttons.len(),
{
    if buttons.len() == 0 {
        Seq::empty()
    } else {
        button_texts(buttons.drop_last()).push(buttons.last().key@).push(buttons.last().label@)
    }
}

impl Notifier {
    /// Whether buttons are drawn.
    pub closed spec fn draws_buttons(self) -> bool {
        self.buttons
    }

    /// Whether markup is rendered.
    pub closed spec fn renders_markup(self) -> bool {
        self.markup
    }

    /// A desktop that says it can do these things.
    pub fn new(capabilities: &Vec<String>) -> (n: Notifier)
        ensures
            n.draws_buttons() == texts(capabilities@).contains("actions"@),
            n.renders_markup() == texts(capabilities@).contains("body-markup"@),
    {
        Notifier { buttons: holds(capabilities, "actions"), markup: holds(capabilities, "body-markup") }
    }

    pub fn has_buttons(&self) -> (r: bool)
        ensures
            r == self.draws_buttons(),
    {
        self.buttons
    }

    /// The actions of a notification: "key", "Label", "key", "Label", and so on,
    /// the shape the interface expects; none where no buttons are drawn.
    pub fn actions(&self, buttons: &Vec<Button>) -> (r: Vec<String>)
        ensures
            texts(r@) == (if self.draws_buttons() {
                button_texts(buttons@)
            } else {
                Seq::empty()
            }),
    {
        let mut out: Vec<String> = Vec::new();
        assert(texts(out@) =~= Seq::<Seq<char>>::empty());
        if !self.buttons {
            return out;
        }
        assert(buttons@.take(0) =~= Seq::empty());
        for i in 0..buttons.len()
            invariant
                texts(out@) == button_texts(buttons@.take(i as int)),
        {
            let ghost so_far = texts(out@);
            out.push(buttons[i].key.to_owned());
            assert(texts(out@) =~= so_far.push(buttons@[i as int].key@));
            out.push(buttons[i].label.to_owned());
            proof {
                assert(texts(out@) =~= so_far.push(buttons@[i as int].key@).push(
                    buttons@[i as int].label@,
                ));
                assert(buttons@.take(i + 1).drop_last() =~= buttons@.take(i as int));
                assert(buttons@.take(i + 1).last() == buttons@[i as int]);
            }
        }
        assert(buttons@.take(buttons@.len() as int) =~= buttons@);
        out
    }

    /// The body of a notification. It carries peer-chosen text and may be
    /// parsed; see [`escape_markup`].
    pub fn body(&self, body: &str) -> (r: String)
        ensures
            r@ == (if self.renders_markup() {
                escaped_text(body@)
            } else {
                body@
            }),
    {
        if self.markup {
            escape_markup(body)
        } else {
            body.to_owned()
        }
    }
}

/// Escaping goes character by character: what three characters become, every other one
/// staying as it is, and a text becomes what its parts become.
pub proof fn each_character_is_escaped_by_itself(a: Seq<char>, b: Seq<char>, c: char)
    ensures
        escaped_text(a + b) == escaped_text(a) + escaped_text(b),
        escaped_text(seq!['&']) == "&amp;"@,
        escaped_text(seq!['<']) == "&lt;"@,
        escaped_text(seq!['>']) == "&gt;"@,
        c != '&' && c != '<' && c != '>' ==> escaped_text(seq![c]) == seq![c],
    decreases b.len(),
{
    one_character_is_escaped('&');
    one_character_is_escaped('<');
    one_character_is_escaped('>');
    one_character_is_escaped(c);
    if b.len() > 0 {
        each_character_is_escaped_by_itself(a, b.drop_last(), c);
        assert((a + b).drop_last() =~= a + b.drop_last());
        assert(escaped_text(a + b) =~= escaped_text(a) + escaped_text(b));
    } else {
        assert(a + b =~= a);
        assert(escaped_text(a) + escaped_text(b) =~= escaped_text(a));
    }
}

proof fn one_character_is_escaped(c: char)
    ensures
        escaped_text(seq![c]) == escaped(c),
{
    reveal_with_fuel(escaped_text, 2);
    assert(seq![c].drop_last() =~= Seq::<char>::empty());
    assert(escaped_text(seq![c]) =~= escaped(c));
}

/// Each button gives its key and then its label, in order.
pub proof fn each_button_has_its_key_and_label(buttons: Seq<Button>, i: int)
    requires
        0 <= i < buttons.len(),
    ensures
        button_texts(buttons).len() == 2 * buttons.len(),
        button_texts(buttons)[2 * i] == buttons[i].key@,
        button_texts(buttons)[2 * i + 1] == buttons[i].label@,
    decreases buttons.len(),
{
    let less = buttons.drop_last();
    reveal_with_fuel(button_texts, 2);
    if less.len() > 0 {
        each_button_has_its_key_and_label(less, if i < less.len() {
            i
        } else {
            0
        });
    }
}

/// A desktop draws buttons exactly where it says it can, and gets none otherwise; what it
/// would read as markup is escaped exactly where it would.
pub proof fn a_desktop_gets_what_it_can_show(
    can: Vec<String>,
    n: Notifier,
    draws: bool,
    buttons: Vec<Button>,
    actions: Vec<String>,
    text: &str,
    body: String,
)
    requires
        call_ensures(Notifier::new, (&can,), n),
        call_ensures(Notifier::has_buttons, (&n,), draws),
        call_ensures(Notifier::actions, (&n, &buttons), actions),
        call_ensures(Notifier::body, (&n, text), body),
    ensures
        draws <==> texts(can@).contains("actions"@),
        !draws ==> texts(actions@).len() == 0,
        draws ==> texts(actions@) == button_texts(buttons@),
        texts(can@).contains("body-markup"@) ==> body@ == escaped_text(text@),
        !texts(can@).contains("body-markup"@) ==> body@ == text@,
{
}

} // verus!

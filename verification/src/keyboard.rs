//! The keyboards that the engine shows: a column of menu items, and a
//! window of days to pick from.

use crate::calendar::{days_after, next_day, valid_ymd, Date, Ymd};
use crate::decimal::{decimal_text, push_decimal};
use crate::domain::{IntervalValue, MenuItem};
use crate::token::{decodes_to, payload, CallbackToken, DecodeError};
use crate::base58::base58_text;
use vstd::prelude::*;
use vstd::string::*;

verus! {

/// A button of a menu: the text it shows and the token it carries.
#[derive(Debug, PartialEq, Eq)]
pub struct Button {
    pub text: String,
    pub data: String,
}

/// How the label of a day is worded.
#[derive(Debug, Clone, Copy, PartialEq, Eq, Structural)]
pub enum DateLabel {
    /// The day after the first day.
    Tomorrow,
    /// Two days after the first day.
    DayAfterTomorrow,
    /// Any later day: weekday, day and month in full.
    Full,
}

/// A button of a date picker: the day, how to word it, and the token it
/// carries.
#[derive(Debug, PartialEq, Eq)]
pub struct DateButton {
    pub date: Date,
    pub label: DateLabel,
    pub data: String,
}

impl View for Button {
    type V = (Seq<char>, Seq<char>);

    open spec fn view(&self) -> (Seq<char>, Seq<char>) {
        (self.text@, self.data@)
    }
}

impl View for DateButton {
    type V = (Ymd, DateLabel, Seq<char>);

    open spec fn view(&self) -> (Ymd, DateLabel, Seq<char>) {
        (self.date@, self.label, self.data@)
    }
}

/// The text of a price: one number, or two joined by a hyphen.
pub open spec fn price_text(price: IntervalValue<i32>) -> Seq<char> {
    match price {
        IntervalValue::Value(v) => decimal_text(v as int),
        IntervalValue::Interval(low, high) => decimal_text(low as int) + seq!['-'] + decimal_text(
            high as int,
        ),
    }
}

/// The text of a duration in minutes: one number, or two joined by a hyphen.
pub open spec fn duration_text(duration: IntervalValue<i64>) -> Seq<char> {
    match duration {
        IntervalValue::Value(v) => decimal_text(v as int),
        IntervalValue::Interval(low, high) => decimal_text(low as int) + seq!['-'] + decimal_text(
            high as int,
        ),
    }
}

/// The text on the button of a menu item: title, duration and price.
pub open spec fn menu_label(item: MenuItem) -> Seq<char> {
    item.title@ + ": ("@ + duration_text(item.duration) + "мин) "@ + price_text(item.price)
        + "руб"@
}

/// Whether `data` is the text of `token`, which decodes to `token` again.
pub open spec fn carries(data: Seq<char>, token: CallbackToken) -> bool {
    &&& data == base58_text(payload(token))
    &&& decodes_to(data, Ok::<CallbackToken, DecodeError>(token))
}

/// Whether `button` is the button of `item`.
pub open spec fn is_button_of(button: Button, item: MenuItem) -> bool {
    &&& button.text@ == menu_label(item)
    &&& carries(button.data@, CallbackToken::MenuSelected { menu_item_id: item.id })
}

/// Whether `buttons` is the menu of `items`: one button for each item, in
/// the same order.
pub open spec fn is_menu_of(buttons: Seq<Button>, items: Seq<MenuItem>) -> bool {
    &&& buttons.len() == items.len()
    &&& forall|i: int| 0 <= i < items.len() ==> is_button_of(#[trigger] buttons[i], items[i])
}

/// How the day `days` days after the first day is worded.
pub open spec fn label_of(days: int) -> DateLabel {
    if days == 1 {
        DateLabel::Tomorrow
    } else if days == 2 {
        DateLabel::DayAfterTomorrow
    } else {
        DateLabel::Full
    }
}

/// Whether `button` is the button of the day `days` days after `start`.
pub open spec fn is_day_button(button: DateButton, start: Ymd, days: int) -> bool {
    &&& days >= 0
    &&& days_after(start, days as nat) == Some(button.date@)
    &&& valid_ymd(button.date@)
    &&& button.label == label_of(days)
    &&& carries(button.data@, CallbackToken::DateSelected { date: button.date })
}

/// Whether `buttons` is the date picker that starts the day after
/// `start + offset` and offers `window` days: consecutive days, in order,
/// fewer than `window` only where the calendar ends.
pub open spec fn is_date_picker_of(buttons: Seq<DateButton>, start: Ymd, offset: int, window: int) -> bool {
    &&& buttons.len() <= window
    &&& forall|i: int|
        0 <= i < buttons.len() ==> is_day_button(#[trigger] buttons[i], start, offset + 1 + i)
    &&& buttons.len() < window ==> days_after(start, (offset + 1 + buttons.len()) as nat) is None
}

fn push_price(out: &mut String, price: &IntervalValue<i32>)
    ensures
        final(out)@ == old(out)@ + price_text(*price),
{
    match price {
        IntervalValue::Value(v) => {
            push_decimal(out, *v as i64);
        },
        IntervalValue::Interval(low, high) => {
            proof {
                reveal_strlit("-");
            }
            push_decimal(out, *low as i64);
            out.append("-");
            push_decimal(out, *high as i64);
        },
    }
}

fn push_duration(out: &mut String, duration: &IntervalValue<i64>)
    ensures
        final(out)@ == old(out)@ + duration_text(*duration),
{
    match duration {
        IntervalValue::Value(v) => {
            push_decimal(out, *v);
        },
        IntervalValue::Interval(low, high) => {
            proof {
                reveal_strlit("-");
            }
            push_decimal(out, *low);
            out.append("-");
            push_decimal(out, *high);
        },
    }
}

/// A keyboard with the items as buttons in one column.
pub fn make_menu(items: &[MenuItem]) -> (buttons: Vec<Button>)
    ensures
        is_menu_of(buttons@, items@),
{
    let mut buttons: Vec<Button> = Vec::new();
    let mut at: usize = 0;
    while at < items.len()
        invariant
            at <= items@.len(),
            buttons@.len() == at,
            forall|i: int| 0 <= i < at ==> is_button_of(#[trigger] buttons@[i], items@[i]),
        decreases items@.len() - at,
    {
        let item = &items[at];
        let mut text = item.title.clone();
        text.append(": (");
        push_duration(&mut text, &item.duration);
        text.append("мин) ");
        push_price(&mut text, &item.price);
        text.append("руб");
        let token = CallbackToken::MenuSelected { menu_item_id: item.id };
        buttons.push(Button { text, data: token.encode() });
        at = at + 1;
    }
    buttons
}

/// Going one day further: the day `days + 1` days after `d` is the day
/// after the one `days` days after `d`.
pub proof fn lemma_days_after_step(d: Ymd, days: nat)
    ensures
        days_after(d, days + 1) == match days_after(d, days) {
            Some(reached) => next_day(reached),
            None => None,
        },
    decreases days,
{
    if days > 0 {
        match next_day(d) {
            Some(next) => {
                lemma_days_after_step(next, (days - 1) as nat);
            },
            None => {},
        }
    } else {
        reveal_with_fuel(days_after, 2);
    }
}

/// A window of `window` days to pick from, the first of them the day after
/// `start + offset`: today is never offered.
pub fn date_picker(start: Date, offset: usize, window: usize) -> (buttons: Vec<DateButton>)
    ensures
        is_date_picker_of(buttons@, start@, offset as int, window as int),
{
    let mut buttons: Vec<DateButton> = Vec::new();
    let mut day: Date = match start.plus_days(offset as u64) {
        Some(day) => day,
        None => {
            proof {
                lemma_days_after_step(start@, offset as nat);
            }
            return buttons;
        },
    };
    while buttons.len() < window
        invariant
            buttons@.len() <= window,
            days_after(start@, (offset + buttons@.len()) as nat) == Some(day@),
            forall|i: int|
                0 <= i < buttons@.len() ==> is_day_button(
                    #[trigger] buttons@[i],
                    start@,
                    offset + 1 + i,
                ),
        decreases window - buttons@.len(),
    {
        proof {
            lemma_days_after_step(start@, (offset + buttons@.len()) as nat);
        }
        let days: usize = buttons.len();
        match day.succ() {
            Some(next) => {
                let label = if offset == 0 && days == 0 {
                    DateLabel::Tomorrow
                } else if (offset == 1 && days == 0) || (offset == 0 && days == 1) {
                    DateLabel::DayAfterTomorrow
                } else {
                    DateLabel::Full
                };
                let token = CallbackToken::DateSelected { date: next };
                buttons.push(DateButton { date: next, label, data: token.encode() });
                day = next;
            },
            None => {
                return buttons;
            },
        }
    }
    buttons
}

/// The items decide the menu: two menus of the same items show the same
/// texts and carry the same tokens.
pub proof fn lemma_one_menu(first: Seq<Button>, second: Seq<Button>, items: Seq<MenuItem>)
    requires
        is_menu_of(first, items),
        is_menu_of(second, items),
    ensures
        first.map_values(|b: Button| b@) == second.map_values(|b: Button| b@),
{
    assert forall|i: int| 0 <= i < items.len() implies first[i]@ == second[i]@ by {
        assert(is_button_of(first[i], items[i]) && is_button_of(second[i], items[i]));
    }
}

/// The first day, the offset and the window decide the date picker: two
/// date pickers of the same three offer the same days under the same labels
/// and carry the same tokens.
pub proof fn lemma_one_date_picker(
    first: Seq<DateButton>,
    second: Seq<DateButton>,
    start: Ymd,
    offset: int,
    window: int,
)
    requires
        is_date_picker_of(first, start, offset, window),
        is_date_picker_of(second, start, offset, window),
    ensures
        first.map_values(|b: DateButton| b@) == second.map_values(|b: DateButton| b@),
{
    if first.len() < second.len() {
        assert(is_day_button(second[first.len() as int], start, offset + 1 + first.len()));
    }
    if second.len() < first.len() {
        assert(is_day_button(first[second.len() as int], start, offset + 1 + second.len()));
    }
    assert forall|i: int| 0 <= i < first.len() implies first[i]@ == second[i]@ by {
        assert(is_day_button(first[i], start, offset + 1 + i));
        assert(is_day_button(second[i], start, offset + 1 + i));
    }
}

} // verus!

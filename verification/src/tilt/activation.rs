//! Carrying out the actions of services.

use vstd::prelude::*;

use crate::json;
use crate::order;
use crate::text;
use crate::tilt::model;
use crate::tilt::model::{ServiceAction, UIButtonInputValue};

verus! {

// ---------------------------------------------------------------------------
// The time of a click
// ---------------------------------------------------------------------------

/// How Tilt writes the time of a click: in UTC, to the microsecond.
pub const CLICK_TIME_FORMAT: &'static str = "%Y-%m-%dT%H:%M:%S%.6fZ";

/// A number in decimal digits, as many as asked for, the lowest last.
pub open spec fn padded_decimal(value: nat, width: nat) -> Seq<char>
    decreases width,
{
    if width == 0 {
        Seq::empty()
    } else {
        padded_decimal(value / 10, (width - 1) as nat).push(text::digit(value % 10))
    }
}

/// The time of day, to the microsecond.
pub open spec fn time_of_day(seconds: nat, nanos: nat) -> Seq<char> {
    padded_decimal(seconds / 3600 % 24, 2) + seq![':'] + padded_decimal(seconds / 60 % 60, 2)
        + seq![':'] + padded_decimal(seconds % 60, 2) + seq!['.'] + padded_decimal(nanos / 1000, 6)
}

/// Whether a year has a day more than most.
pub open spec fn is_leap(year: nat) -> bool {
    year % 4 == 0 && (year % 100 != 0 || year % 400 == 0)
}

/// How many days a year has.
pub open spec fn year_days(year: nat) -> nat {
    if is_leap(year) {
        366
    } else {
        365
    }
}

/// How many days a month has.
pub open spec fn month_days(year: nat, month: nat) -> nat {
    if month == 2 {
        if is_leap(year) {
            29
        } else {
            28
        }
    } else if month == 4 || month == 6 || month == 9 || month == 11 {
        30
    } else {
        31
    }
}

/// The year, and the days of it that have passed, that many days after another
/// year began.
pub open spec fn year_and_days(year: nat, days: nat) -> (nat, nat)
    decreases days,
{
    if days < year_days(year) {
        (year, days)
    } else {
        year_and_days(year + 1, (days - year_days(year)) as nat)
    }
}

/// The month and the day of it, that many days after a month of a year began.
pub open spec fn month_and_day(year: nat, month: nat, days: nat) -> (nat, nat)
    decreases days,
{
    if days < month_days(year, month) {
        (month, days + 1)
    } else {
        month_and_day(year, month + 1, (days - month_days(year, month)) as nat)
    }
}

/// A year in four digits. A later one has a sign.
pub open spec fn year_text(year: nat) -> Seq<char> {
    if year <= 9999 {
        padded_decimal(year, 4)
    } else {
        seq!['+'] + text::decimal(year)
    }
}

/// The date, as year, month and day, that many days after the first of January
/// 1970.
pub open spec fn utc_date(days: nat) -> Seq<char> {
    let (year, passed) = year_and_days(1970, days);
    let (month, day) = month_and_day(year, 1, passed);
    year_text(year) + seq!['-'] + padded_decimal(month, 2) + seq!['-'] + padded_decimal(day, 2)
}

/// The time of a click that many seconds and nanoseconds after 1970 began.
pub open spec fn click_time(seconds: nat, nanos: nat) -> Seq<char> {
    utc_date(seconds / 86400) + seq!['T'] + time_of_day(seconds, nanos) + seq!['Z']
}

/// Writes a time with `chrono::DateTime::from_timestamp` and
/// `chrono::DateTime::format`: the date by the Gregorian calendar, then the time
/// of day and the microseconds in decimal digits. The latest time is the last
/// that `chrono` can hold.
#[verifier::external_body]
fn format_utc(seconds: i64, nanos: u32, format: &str) -> (stamp: String)
    requires
        0 <= seconds <= 8_210_266_876_799,
        nanos < 1_000_000_000,
        format@ == CLICK_TIME_FORMAT@,
    ensures
        stamp@ == click_time(seconds as nat, nanos as nat),
{
    chrono::DateTime::from_timestamp(seconds, nanos).unwrap().format(format).to_string()
}

// ---------------------------------------------------------------------------
// What a click sends
// ---------------------------------------------------------------------------

/// The value of an input, as JSON.
pub open spec fn input_json(input: model::InputView) -> Seq<char> {
    match input {
        model::InputView::Text { name, value } => "{\"name\":"@ + json::json_string(name)
            + ",\"text\":{\"value\":"@ + json::json_string(value) + "}}"@,
        model::InputView::Bool { name, value } => "{\"bool\":{\"value\":"@ + (if value {
            "true"@
        } else {
            "false"@
        }) + "},\"name\":"@ + json::json_string(name) + "}"@,
        model::InputView::Hidden { name, value } => "{\"hidden\":{\"value\":"@
            + json::json_string(value) + "},\"name\":"@ + json::json_string(name) + "}"@,
        model::InputView::Choice { name, value } => "{\"choice\":{\"value\":"@
            + json::json_string(value) + "},\"name\":"@ + json::json_string(name) + "}"@,
    }
}

/// The values of inputs, as JSON, with commas between them.
pub open spec fn inputs_json(inputs: Seq<model::InputView>) -> Seq<char>
    decreases inputs.len(),
{
    if inputs.len() == 0 {
        Seq::empty()
    } else if inputs.len() == 1 {
        input_json(inputs.last())
    } else {
        inputs_json(inputs.drop_last()) + ","@ + input_json(inputs.last())
    }
}

/// The status of a button that was clicked at a time, as JSON.
pub open spec fn status_json(
    name: Seq<char>,
    inputs: Seq<model::InputView>,
    timestamp: Seq<char>,
) -> Seq<char> {
    "{\"metadata\":{\"name\":"@ + json::json_string(name) + "},\"status\":{\"inputs\":["@
        + inputs_json(inputs) + "],\"lastClickedAt\":"@ + json::json_string(timestamp) + "}}"@
}

fn input_text(input: &UIButtonInputValue) -> (result: String)
    ensures
        result@ == input_json(input@),
{
    match input {
        UIButtonInputValue::Text { name, value } => {
            let mut result = "{\"name\":".to_owned();
            result.append(json::quoted_json(name.as_str()).as_str());
            result.append(",\"text\":{\"value\":");
            result.append(json::quoted_json(value.as_str()).as_str());
            result.append("}}");
            result
        },
        UIButtonInputValue::Bool { name, value } => {
            let mut result = "{\"bool\":{\"value\":".to_owned();
            result.append(
                if *value {
                    "true"
                } else {
                    "false"
                },
            );
            result.append("},\"name\":");
            result.append(json::quoted_json(name.as_str()).as_str());
            result.append("}");
            result
        },
        UIButtonInputValue::Hidden { name, value } => {
            let mut result = "{\"hidden\":{\"value\":".to_owned();
            result.append(json::quoted_json(value.as_str()).as_str());
            result.append("},\"name\":");
            result.append(json::quoted_json(name.as_str()).as_str());
            result.append("}");
            result
        },
        UIButtonInputValue::Choice { name, value } => {
            let mut result = "{\"choice\":{\"value\":".to_owned();
            result.append(json::quoted_json(value.as_str()).as_str());
            result.append("},\"name\":");
            result.append(json::quoted_json(name.as_str()).as_str());
            result.append("}");
            result
        },
    }
}

fn inputs_text(inputs: &Vec<UIButtonInputValue>) -> (result: String)
    ensures
        result@ == inputs_json(order::views(inputs@)),
{
    let ghost all = order::views(inputs@);
    let mut result = "".to_owned();
    let mut index: usize = 0;
    proof {
        reveal_strlit("");
        assert(result@ =~= inputs_json(all.take(0)));
    }
    while index < inputs.len()
        invariant
            index <= inputs@.len(),
            all == order::views(inputs@),
            result@ == inputs_json(all.take(index as int)),
        decreases inputs@.len() - index,
    {
        assert(all.take(index + 1).drop_last() =~= all.take(index as int));
        if index == 0 {
            result = input_text(&inputs[index]);
        } else {
            result.append(",");
            result.append(input_text(&inputs[index]).as_str());
        }
        index += 1;
    }
    assert(all.take(all.len() as int) =~= all);
    result
}

/// What is sent to Tilt to say that a button was clicked at a time.
pub fn button_status_body(action: &ServiceAction, timestamp: &str) -> (body: Result<String, String>)
    ensures
        match body {
            Ok(found) => action@ matches model::ActionView::Button { name, inputs, .. } && found@
                == status_json(name, inputs, timestamp@),
            Err(message) => action@ is Link && message@
                == "only Tilt UI buttons have a status payload"@,
        },
{
    match action {
        ServiceAction::Link { .. } => Err("only Tilt UI buttons have a status payload".to_owned()),
        ServiceAction::Button { name, inputs, .. } => {
            let mut body = "{\"metadata\":{\"name\":".to_owned();
            body.append(json::quoted_json(name.as_str()).as_str());
            body.append("},\"status\":{\"inputs\":[");
            body.append(inputs_text(inputs).as_str());
            body.append("],\"lastClickedAt\":");
            body.append(json::quoted_json(timestamp).as_str());
            body.append("}}");
            Ok(body)
        },
    }
}

/// The head of the request that puts the status of a button.
pub open spec fn request_head(name: Seq<char>, port: u16, length: nat) -> Seq<char> {
    "PUT /proxy/apis/tilt.dev/v1alpha1/uibuttons/"@ + name + "/status HTTP/1.1\r\nHost: 127.0.0.1:"@
        + text::decimal(port as nat)
        + "\r\nContent-Type: application/json\r\nContent-Length: "@ + text::decimal(length)
        + "\r\nConnection: close\r\n\r\n"@
}

/// The request that puts the status of a button: its head, which gives the
/// length of the body in bytes, and the body.
pub open spec fn request_text(name: Seq<char>, port: u16, body: Seq<char>) -> Seq<char> {
    request_head(name, port, text::encoded_len(body)) + body
}

/// The request that tells Tilt that a button was clicked at a time.
pub fn button_request(action: &ServiceAction, port: u16, timestamp: &str) -> (request: Result<
    String,
    String,
>)
    ensures
        match request {
            Ok(found) => action@ matches model::ActionView::Button { name, inputs, .. } && found@
                == request_text(name, port, status_json(name, inputs, timestamp@)),
            Err(message) => action@ is Link && message@
                == "only Tilt UI buttons can be activated through the Tilt API"@,
        },
{
    match action {
        ServiceAction::Link { .. } => Err(
            "only Tilt UI buttons can be activated through the Tilt API".to_owned(),
        ),
        ServiceAction::Button { name, .. } => {
            let body = match button_status_body(action, timestamp) {
                Ok(body) => body,
                Err(message) => return Err(message),
            };
            let length: usize = body.as_str().as_bytes().len();
            let mut request = "PUT /proxy/apis/tilt.dev/v1alpha1/uibuttons/".to_owned();
            request.append(name.as_str());
            request.append("/status HTTP/1.1\r\nHost: 127.0.0.1:");
            request.append(text::decimal_text(port as u64).as_str());
            request.append("\r\nContent-Type: application/json\r\nContent-Length: ");
            request.append(text::decimal_text(length as u64).as_str());
            request.append("\r\nConnection: close\r\n\r\n");
            request.append(body.as_str());
            Ok(request)
        },
    }
}

/// The first line of a text, empty where there is none.
pub open spec fn first_line(content: Seq<char>) -> Seq<char> {
    let lines = text::lines_of(content);
    if lines.len() == 0 {
        Seq::empty()
    } else {
        lines[0]
    }
}

/// The first line of a response, empty where there is none.
pub open spec fn status_line(response: Seq<u8>) -> Seq<char> {
    first_line(text::utf8_lossy(response))
}

/// Whether the first line of a response says that the request was carried out.
pub open spec fn is_accepted(line: Seq<char>) -> bool {
    text::occurs(line, " 200 "@) || text::occurs(line, " 201 "@)
}

/// Judges the text of Tilt's response to the click of a button, by its first
/// line.
pub fn check_response_text(name: &str, response: &str) -> (result: Result<(), String>)
    ensures
        match result {
            Ok(_) => is_accepted(first_line(response@)),
            Err(message) => !is_accepted(first_line(response@)) && message@
                == "Tilt rejected button "@ + name@ + ": "@ + first_line(response@),
        },
{
    let lines = text::lines(response);
    let line = if lines.len() == 0 {
        String::new()
    } else {
        lines[0].clone()
    };
    if text::contains(line.as_str(), " 200 ") || text::contains(line.as_str(), " 201 ") {
        return Ok(());
    }
    let mut message = "Tilt rejected button ".to_owned();
    message.append(name);
    message.append(": ");
    message.append(line.as_str());
    Err(message)
}

/// Judges Tilt's response to the click of a button.
pub fn check_button_response(name: &str, response: &[u8]) -> (result: Result<(), String>)
    ensures
        match result {
            Ok(_) => is_accepted(status_line(response@)),
            Err(message) => !is_accepted(status_line(response@)) && message@
                == "Tilt rejected button "@ + name@ + ": "@ + status_line(response@),
        },
{
    check_response_text(name, text::decode_lossy(response).as_str())
}

// ---------------------------------------------------------------------------
// Activation
// ---------------------------------------------------------------------------

/// What is to be done to carry out an action.
#[derive(Debug, PartialEq, Eq)]
pub enum Activation {
    /// Open a web address.
    OpenUrl { url: String },
    /// Send a request to a port of this machine and judge the response.
    PutStatus { name: String, port: u16, request: String },
}

/// What is to be done to carry out an action, as mathematics has it.
pub enum ActivationView {
    OpenUrl { url: Seq<char> },
    PutStatus { name: Seq<char>, port: u16, request: Seq<char> },
}

impl View for Activation {
    type V = ActivationView;

    open spec fn view(&self) -> ActivationView {
        match self {
            Activation::OpenUrl { url } => ActivationView::OpenUrl { url: url@ },
            Activation::PutStatus { name, port, request } => ActivationView::PutStatus {
                name: name@,
                port: *port,
                request: request@,
            },
        }
    }
}

/// What carries out an action: a link is opened, a button is clicked at the
/// given time through the API on the given port.
pub open spec fn activation_of(
    action: model::ActionView,
    port: u16,
    timestamp: Seq<char>,
) -> ActivationView {
    match action {
        model::ActionView::Link { url, .. } => ActivationView::OpenUrl { url },
        model::ActionView::Button { name, inputs, .. } => ActivationView::PutStatus {
            name,
            port,
            request: request_text(name, port, status_json(name, inputs, timestamp)),
        },
    }
}

/// What carries out an action, given how a button's click is stamped.
pub fn activation_at(action: &ServiceAction, port: u16, timestamp: &str) -> (activation: Activation)
    ensures
        activation@ == activation_of(action@, port, timestamp@),
{
    match action {
        ServiceAction::Link { url, .. } => Activation::OpenUrl { url: url.clone() },
        ServiceAction::Button { name, .. } => {
            let request = match button_request(action, port, timestamp) {
                Ok(request) => request,
                Err(message) => message,
            };
            Activation::PutStatus { name: name.clone(), port, request }
        },
    }
}

/// What carries out an action that many seconds and nanoseconds after 1970
/// began.
pub fn activate_service_action(action: &ServiceAction, port: u16, seconds: i64, nanos: u32) -> (
    activation: Activation)
    requires
        0 <= seconds <= 8_210_266_876_799,
        nanos < 1_000_000_000,
    ensures
        activation@ == activation_of(action@, port, click_time(seconds as nat, nanos as nat)),
{
    let timestamp = format_utc(seconds, nanos, CLICK_TIME_FORMAT);
    activation_at(action, port, timestamp.as_str())
}

/// The address of Tilt's web page on a port.
pub open spec fn web_url(port: u16) -> Seq<char> {
    "http://localhost:"@ + text::decimal(port as nat) + "/"@
}

/// The address of Tilt's web page on a port.
pub fn tilt_web_url(port: u16) -> (url: String)
    ensures
        url@ == web_url(port),
{
    let mut url = "http://localhost:".to_owned();
    url.append(text::decimal_text(port as u64).as_str());
    url.append("/");
    url
}

/// What opens Tilt's web page on a port.
pub fn open_tilt_web_ui(port: u16) -> (activation: Activation)
    ensures
        activation@ == (ActivationView::OpenUrl { url: web_url(port) }),
{
    Activation::OpenUrl { url: tilt_web_url(port) }
}

// ---------------------------------------------------------------------------
// Laws
// ---------------------------------------------------------------------------

/// A click is stamped with the date and the time of day, to the microsecond, in
/// UTC.
pub proof fn law_clicks_are_stamped_to_the_microsecond()
    ensures
        CLICK_TIME_FORMAT@ == "%Y-%m-%dT%H:%M:%S%.6fZ"@,
{
}

proof fn lemma_padded(value: nat)
    ensures
        padded_decimal(value, 2).len() == 2,
        text::number_in(padded_decimal(value, 2)) == value % 100,
        padded_decimal(value, 6).len() == 6,
        text::number_in(padded_decimal(value, 6)) == value % 1000000,
{
    lemma_padded_step(value / 100000, 0);
    lemma_padded_step(value / 10000, 1);
    lemma_padded_step(value / 1000, 2);
    lemma_padded_step(value / 100, 3);
    lemma_padded_step(value / 10, 4);
    lemma_padded_step(value, 5);
    lemma_padded_step(value / 10, 0);
    lemma_padded_step(value, 1);
    assert(padded_decimal(value / 1000000, 0) =~= Seq::<char>::empty());
    assert(value / 10 / 10 == value / 100);
    assert(value / 100 / 10 == value / 1000);
    assert(value / 1000 / 10 == value / 10000);
    assert(value / 10000 / 10 == value / 100000);
    assert(value / 100000 / 10 == value / 1000000);
}

proof fn lemma_padded_step(value: nat, width: nat)
    ensures
        padded_decimal(value, width + 1).len() == padded_decimal(value / 10, width).len() + 1,
        text::number_in(padded_decimal(value, width + 1)) == 10 * text::number_in(
            padded_decimal(value / 10, width),
        ) + value % 10,
        padded_decimal(value, 0).len() == 0,
        text::number_in(padded_decimal(value, 0)) == 0,
{
    let front = padded_decimal(value / 10, width);
    assert(padded_decimal(value, width + 1).drop_last() =~= front);
}

proof fn lemma_clock(seconds: nat)
    ensures
        3600 * (seconds / 3600 % 24) + 60 * (seconds / 60 % 60) + seconds % 60 == seconds % 86400,
{
    let minutes = seconds / 60;
    let hours = minutes / 60;
    let days = hours / 24;
    assert(seconds == 60 * minutes + seconds % 60);
    assert(minutes == 60 * hours + minutes % 60);
    assert(hours == 24 * days + hours % 24);
    assert(seconds / 3600 == hours);
}

/// The time of day can be read back: two digits each for hours, minutes and
/// seconds, which make up the seconds since midnight, and six for the
/// microseconds.
pub proof fn law_time_of_day_reads_back(seconds: nat, nanos: nat)
    requires
        nanos < 1_000_000_000,
    ensures
        ({
            let stamp = time_of_day(seconds, nanos);
            let hours = text::number_in(stamp.subrange(0, 2));
            let minutes = text::number_in(stamp.subrange(3, 5));
            let rest = text::number_in(stamp.subrange(6, 8));
            &&& stamp.len() == 15
            &&& stamp[2] == ':' && stamp[5] == ':' && stamp[8] == '.'
            &&& 0 <= hours < 24 && 0 <= minutes < 60 && 0 <= rest < 60
            &&& 3600 * hours + 60 * minutes + rest == seconds % 86400
            &&& text::number_in(stamp.subrange(9, 15)) == nanos / 1000
        }),
{
    let hours = seconds / 3600 % 24;
    let minutes = seconds / 60 % 60;
    let rest = seconds % 60;
    lemma_padded(hours);
    lemma_padded(minutes);
    lemma_padded(rest);
    lemma_padded(nanos / 1000);
    let stamp = time_of_day(seconds, nanos);
    let (first, second) = (padded_decimal(hours, 2), padded_decimal(minutes, 2));
    let (third, last) = (padded_decimal(rest, 2), padded_decimal(nanos / 1000, 6));
    lemma_parts_of_a_time(first, second, third, last);
    assert(stamp == first + seq![':'] + second + seq![':'] + third + seq!['.'] + last);
    lemma_clock(seconds);
}

proof fn lemma_parts_of_a_time(
    first: Seq<char>,
    second: Seq<char>,
    third: Seq<char>,
    last: Seq<char>,
)
    requires
        first.len() == 2,
        second.len() == 2,
        third.len() == 2,
        last.len() == 6,
    ensures
        ({
            let stamp = first + seq![':'] + second + seq![':'] + third + seq!['.'] + last;
            &&& stamp.len() == 15
            &&& stamp[2] == ':' && stamp[5] == ':' && stamp[8] == '.'
            &&& stamp.subrange(0, 2) == first
            &&& stamp.subrange(3, 5) == second
            &&& stamp.subrange(6, 8) == third
            &&& stamp.subrange(9, 15) == last
        }),
{
    let stamp = first + seq![':'] + second + seq![':'] + third + seq!['.'] + last;
    assert(stamp.subrange(0, 2) =~= first);
    assert(stamp.subrange(3, 5) =~= second);
    assert(stamp.subrange(6, 8) =~= third);
    assert(stamp.subrange(9, 15) =~= last);
}

/// How many days the years from one up to another have.
pub open spec fn days_of_years(from: nat, to: nat) -> nat
    decreases to,
{
    if to <= from {
        0
    } else {
        days_of_years(from, (to - 1) as nat) + year_days((to - 1) as nat)
    }
}

proof fn lemma_days_of_years(from: nat, to: nat)
    requires
        from < to,
    ensures
        days_of_years(from, to) == year_days(from) + days_of_years(from + 1, to),
    decreases to,
{
    if from + 1 < to {
        lemma_days_of_years(from, (to - 1) as nat);
    } else {
        assert(days_of_years(from, from) == 0);
    }
}

/// A number of days falls into the year before which that many days, less those
/// of the year itself, have passed.
pub proof fn law_days_fall_into_their_year(year: nat, days: nat)
    ensures
        ({
            let (found, passed) = year_and_days(year, days);
            &&& found >= year
            &&& passed < year_days(found)
            &&& days_of_years(year, found) + passed == days
        }),
        year_days(year) == if (year % 4 == 0 && year % 100 != 0) || year % 400 == 0 {
            366int
        } else {
            365
        },
    decreases days,
{
    if days >= year_days(year) {
        let less = (days - year_days(year)) as nat;
        law_days_fall_into_their_year(year + 1, less);
        let (found, _) = year_and_days(year + 1, less);
        lemma_days_of_years(year, found);
    }
}

/// The days of a year fall into its twelve months, which have together as many
/// days as the year, and the day is one that the month has.
pub proof fn law_days_fall_into_their_month(year: nat, days: nat)
    requires
        days < year_days(year),
    ensures
        ({
            let (month, day) = month_and_day(year, 1, days);
            &&& 1 <= month <= 12
            &&& 1 <= day <= month_days(year, month)
        }),
        month_days(year, 1) + month_days(year, 2) + month_days(year, 3) + month_days(year, 4)
            + month_days(year, 5) + month_days(year, 6) + month_days(year, 7) + month_days(year, 8)
            + month_days(year, 9) + month_days(year, 10) + month_days(year, 11) + month_days(
            year,
            12,
        ) == year_days(year),
{
    reveal_with_fuel(month_and_day, 13);
}

/// How many days the months of a year have before one of them.
pub open spec fn days_of_months(year: nat, month: nat) -> nat
    decreases month,
{
    if month <= 1 {
        0
    } else {
        days_of_months(year, (month - 1) as nat) + month_days(year, (month - 1) as nat)
    }
}

/// The days of a year that have passed are those of the months before and those
/// of the month itself. Of the months, the second is the short one, and the
/// fourth, sixth, ninth and eleventh have a day less than the others.
pub proof fn law_months_follow_each_other(year: nat, days: nat, month: nat)
    requires
        days < year_days(year),
        1 <= month <= 12,
    ensures
        ({
            let (found, day) = month_and_day(year, 1, days);
            days_of_months(year, found) + day == days + 1
        }),
        month_days(year, month) == 31 <==> month != 2 && month != 4 && month != 6 && month != 9
            && month != 11,
        month_days(year, month) < 30 <==> month == 2,
        month_days(year, 2) == if year_days(year) == 366 {
            29int
        } else {
            28
        },
{
    reveal_with_fuel(month_and_day, 13);
    reveal_with_fuel(days_of_months, 13);
}

proof fn lemma_padded_year(year: nat)
    ensures
        padded_decimal(year, 4).len() == 4,
        text::number_in(padded_decimal(year, 4)) == year % 10000,
{
    lemma_padded_step(year / 1000, 0);
    lemma_padded_step(year / 100, 1);
    lemma_padded_step(year / 10, 2);
    lemma_padded_step(year, 3);
    assert(year / 10 / 10 == year / 100);
    assert(year / 100 / 10 == year / 1000);
}

/// A year of four digits or fewer is written in four digits, which read back. A
/// later one has a sign before its digits.
pub proof fn law_years_read_back(year: nat)
    ensures
        year < 10000 ==> year_text(year).len() == 4 && text::number_in(year_text(year)) == year,
        year >= 10000 ==> year_text(year)[0] == '+' && text::number_in(year_text(year).skip(1))
            == year,
{
    lemma_padded_year(year);
    text::law_decimal_notation_reads_back(year);
    if year >= 10000 {
        assert(year_text(year).skip(1) =~= text::decimal(year));
    }
}

/// A stamp holds the year, the month and the day, counted in days from the
/// beginning of 1970, then the time of day, and it says that it is in UTC.
pub proof fn law_stamps_count_from_1970(seconds: nat, nanos: nat)
    requires
        seconds / 86400 < days_of_years(1970, 10000),
    ensures
        ({
            let stamp = click_time(seconds, nanos);
            let year = text::number_in(stamp.subrange(0, 4)) as nat;
            let month = text::number_in(stamp.subrange(5, 7)) as nat;
            let day = text::number_in(stamp.subrange(8, 10));
            &&& stamp.len() == 27
            &&& stamp[4] == '-' && stamp[7] == '-' && stamp[10] == 'T' && stamp[26] == 'Z'
            &&& 1970 <= year < 10000 && 1 <= month <= 12
            &&& days_of_years(1970, year) + days_of_months(year, month) + day - 1 == seconds / 86400
            &&& stamp.subrange(11, 26) == time_of_day(seconds, nanos)
        }),
{
    let days = seconds / 86400;
    let (year, passed) = year_and_days(1970, days);
    law_days_fall_into_their_year(1970, days);
    if year >= 10000 {
        lemma_years_add_up(1970, 10000, year);
    }
    let (month, day) = month_and_day(year, 1, passed);
    law_days_fall_into_their_month(year, passed);
    law_months_follow_each_other(year, passed, month);
    lemma_padded_year(year);
    lemma_padded(month);
    lemma_padded(day);
    let stamp = click_time(seconds, nanos);
    let (first, second, third) = (
        padded_decimal(year, 4),
        padded_decimal(month, 2),
        padded_decimal(day, 2),
    );
    lemma_time_len(seconds, nanos);
    lemma_parts_of_a_stamp(first, second, third, time_of_day(seconds, nanos));
    assert(stamp == first + seq!['-'] + second + seq!['-'] + third + seq!['T'] + time_of_day(
        seconds,
        nanos,
    ) + seq!['Z']);
}

proof fn lemma_time_len(seconds: nat, nanos: nat)
    ensures
        time_of_day(seconds, nanos).len() == 15,
{
    lemma_padded(seconds / 3600 % 24);
    lemma_padded(seconds / 60 % 60);
    lemma_padded(seconds % 60);
    lemma_padded(nanos / 1000);
}

proof fn lemma_years_add_up(from: nat, between: nat, to: nat)
    requires
        from <= between <= to,
    ensures
        days_of_years(from, between) <= days_of_years(from, to),
    decreases to,
{
    if between < to {
        lemma_years_add_up(from, between, (to - 1) as nat);
    }
}

proof fn lemma_parts_of_a_stamp(
    first: Seq<char>,
    second: Seq<char>,
    third: Seq<char>,
    time: Seq<char>,
)
    requires
        first.len() == 4,
        second.len() == 2,
        third.len() == 2,
        time.len() == 15,
    ensures
        ({
            let stamp = first + seq!['-'] + second + seq!['-'] + third + seq!['T'] + time
                + seq!['Z'];
            &&& stamp.len() == 27
            &&& stamp[4] == '-' && stamp[7] == '-' && stamp[10] == 'T' && stamp[26] == 'Z'
            &&& stamp.subrange(0, 4) == first
            &&& stamp.subrange(5, 7) == second
            &&& stamp.subrange(8, 10) == third
            &&& stamp.subrange(11, 26) == time
        }),
{
    let stamp = first + seq!['-'] + second + seq!['-'] + third + seq!['T'] + time + seq!['Z'];
    assert(stamp.subrange(0, 4) =~= first);
    assert(stamp.subrange(5, 7) =~= second);
    assert(stamp.subrange(8, 10) =~= third);
    assert(stamp.subrange(11, 26) =~= time);
}

/// The value of an input is sent under its name and as what it is: a text, a yes
/// or no, a hidden value or a choice.
pub proof fn law_values_are_sent_as_what_they_are(
    name: Seq<char>,
    value: Seq<char>,
    yes: bool,
)
    ensures
        ({
            let key = json::json_string(name);
            let content = json::json_string(value);
            &&& input_json(model::InputView::Text { name, value }) == "{\"name\":"@ + key
                + ",\"text\":{\"value\":"@ + content + "}}"@
            &&& yes ==> input_json(model::InputView::Bool { name, value: yes })
                == "{\"bool\":{\"value\":"@ + "true"@ + "},\"name\":"@ + key + "}"@
            &&& !yes ==> input_json(model::InputView::Bool { name, value: yes })
                == "{\"bool\":{\"value\":"@ + "false"@ + "},\"name\":"@ + key + "}"@
            &&& input_json(model::InputView::Hidden { name, value }) == "{\"hidden\":{\"value\":"@
                + content + "},\"name\":"@ + key + "}"@
            &&& input_json(model::InputView::Choice { name, value }) == "{\"choice\":{\"value\":"@
                + content + "},\"name\":"@ + key + "}"@
        }),
{
}

/// The values of inputs are sent in their order, with commas between them.
pub proof fn law_values_are_sent_in_order(
    first: Seq<model::InputView>,
    input: model::InputView,
)
    ensures
        inputs_json(Seq::empty()) == Seq::<char>::empty(),
        inputs_json(first.push(input)) == if first.len() == 0 {
            input_json(input)
        } else {
            inputs_json(first) + ","@ + input_json(input)
        },
{
    assert(first.push(input).drop_last() =~= first);
}

/// What is sent for a click names the button, the values of its inputs and the
/// time. It is put to that button's status on the port, and the head tells how
/// many bytes the body has.
pub proof fn law_clicks_are_put_to_their_button(
    name: Seq<char>,
    inputs: Seq<model::InputView>,
    timestamp: Seq<char>,
    port: u16,
)
    ensures
        ({
            let body = status_json(name, inputs, timestamp);
            let bytes = vstd::utf8::encode_utf8(body).len();
            &&& body == "{\"metadata\":{\"name\":"@ + json::json_string(name)
                + "},\"status\":{\"inputs\":["@ + inputs_json(inputs)
                + "],\"lastClickedAt\":"@ + json::json_string(timestamp) + "}}"@
            &&& request_text(name, port, body)
                == "PUT /proxy/apis/tilt.dev/v1alpha1/uibuttons/"@ + name
                + "/status HTTP/1.1\r\nHost: 127.0.0.1:"@ + text::decimal(port as nat)
                + "\r\nContent-Type: application/json\r\nContent-Length: "@ + text::decimal(bytes)
                + "\r\nConnection: close\r\n\r\n"@ + body
        }),
{
}

/// A click was carried out exactly if the first line of the response gives one
/// of the codes 200 and 201 between spaces. Later lines do not matter.
pub proof fn law_the_first_line_decides(line: Seq<char>, rest: Seq<char>)
    requires
        !line.contains('\n'),
        line.len() > 0,
        line[line.len() - 1] != '\r',
    ensures
        first_line(line + seq!['\n'] + rest) == line,
        first_line(line + seq!['\r', '\n'] + rest) == line,
        first_line(line) == line,
        first_line(Seq::empty()) == Seq::<char>::empty(),
        is_accepted(line) <==> text::occurs(line, " 200 "@) || text::occurs(line, " 201 "@),
{
    text::law_line_feeds_end_lines(line, rest);
}

/// A link is opened where it leads. A button is clicked, and only that button,
/// on the port that was given.
pub proof fn law_actions_do_what_they_are(
    action: model::ActionView,
    port: u16,
    timestamp: Seq<char>,
)
    ensures
        match action {
            model::ActionView::Link { url: wanted, .. } => activation_of(action, port, timestamp)
                == (ActivationView::OpenUrl { url: wanted }),
            model::ActionView::Button { name: wanted, inputs, .. } => activation_of(
                action,
                port,
                timestamp,
            ) matches ActivationView::PutStatus { name, port: asked, request } && name == wanted
                && asked == port && request == request_text(
                wanted,
                port,
                status_json(wanted, inputs, timestamp),
            ),
        },
        web_url(port) == "http://localhost:"@ + text::decimal(port as nat) + "/"@,
{
}

} // verus!

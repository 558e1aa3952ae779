use vstd::prelude::*;
use vstd::string::StringExecFns;

verus! {

/// A message for the notification sink.
#[derive(Debug, Clone, PartialEq, Eq)]
pub struct OutgoingEmail {
    pub to: String,
    pub subject: String,
    pub body: String,
}

pub open spec fn digit_char(d: nat) -> char {
    if d == 0 { '0' }
    else if d == 1 { '1' }
    else if d == 2 { '2' }
    else if d == 3 { '3' }
    else if d == 4 { '4' }
    else if d == 5 { '5' }
    else if d == 6 { '6' }
    else if d == 7 { '7' }
    else if d == 8 { '8' }
    else { '9' }
}

/// The decimal digits of `n`, most significant first.
pub open spec fn digits(n: nat) -> Seq<char>
    decreases n,
{
    if n < 10 {
        seq![digit_char(n)]
    } else {
        digits(n / 10).push(digit_char(n % 10))
    }
}

/// The decimal text of an integer, with a leading `-` where it is negative.
pub open spec fn decimal(n: int) -> Seq<char> {
    if n < 0 {
        seq!['-'] + digits((-n) as nat)
    } else {
        digits(n as nat)
    }
}

fn digit_str(d: u32) -> (r: &'static str)
    requires
        d < 10,
    ensures
        r@ == seq![digit_char(d as nat)],
{
    proof {
        reveal_strlit("0");
        reveal_strlit("1");
        reveal_strlit("2");
        reveal_strlit("3");
        reveal_strlit("4");
        reveal_strlit("5");
        reveal_strlit("6");
        reveal_strlit("7");
        reveal_strlit("8");
        reveal_strlit("9");
    }
    if d == 0 { "0" }
    else if d == 1 { "1" }
    else if d == 2 { "2" }
    else if d == 3 { "3" }
    else if d == 4 { "4" }
    else if d == 5 { "5" }
    else if d == 6 { "6" }
    else if d == 7 { "7" }
    else if d == 8 { "8" }
    else { "9" }
}

fn push_digits(out: &mut String, n: u32)
    ensures
        final(out)@ == old(out)@ + digits(n as nat),
    decreases n,
{
    if n >= 10 {
        push_digits(out, n / 10);
    }
    out.append(digit_str(n % 10));
    proof {
        if n < 10 {
            assert(digits(n as nat) == seq![digit_char(n as nat)]);
        } else {
            assert(digits(n as nat) == digits((n / 10) as nat).push(digit_char((n % 10) as nat)));
        }
    }
    assert(final(out)@ =~= old(out)@ + digits(n as nat));
}

/// Appends the decimal text of `n` to `out`.
pub fn push_decimal(out: &mut String, n: i32)
    ensures
        final(out)@ == old(out)@ + decimal(n as int),
{
    if n < 0 {
        out.append("-");
        proof {
            reveal_strlit("-");
        }
        let m = (-(n as i64)) as u32;
        push_digits(out, m);
        assert(final(out)@ =~= old(out)@ + decimal(n as int));
    } else {
        push_digits(out, n as u32);
    }
}

pub open spec fn welcome_body(first_name: Seq<char>) -> Seq<char> {
    "Dear "@ + first_name
        + ",\n\nWelcome to our Support Ticketing System! Your account has been created successfully.\n\nBest regards,\nSupport Team"@
}

pub open spec fn ticket_subject(ticket_id: i32) -> Seq<char> {
    "New Ticket Created - #"@ + decimal(ticket_id as int)
}

pub open spec fn ticket_body(title: Seq<char>, ticket_id: i32) -> Seq<char> {
    "A new ticket has been created:\n\nTitle: "@ + title + "\nTicket ID: "@ + decimal(
        ticket_id as int,
    ) + "\n\nWe will review your request and get back to you soon.\n\nBest regards,\nSupport Team"@
}

/// The message sent to a newly registered user.
pub fn welcome_email(email: &str, first_name: &str) -> (r: OutgoingEmail)
    ensures
        r.to@ == email@,
        r.subject@ == "Welcome to Support Ticketing System!"@,
        r.body@ == welcome_body(first_name@),
{
    let mut body = String::from_str("Dear ");
    body.append(first_name);
    body.append(
        ",\n\nWelcome to our Support Ticketing System! Your account has been created successfully.\n\nBest regards,\nSupport Team",
    );
    OutgoingEmail {
        to: String::from_str(email),
        subject: String::from_str("Welcome to Support Ticketing System!"),
        body,
    }
}

/// The message sent to a customer when a ticket is created for them.
pub fn ticket_email(email: &str, title: &str, ticket_id: i32) -> (r: OutgoingEmail)
    ensures
        r.to@ == email@,
        r.subject@ == ticket_subject(ticket_id),
        r.body@ == ticket_body(title@, ticket_id),
{
    let mut subject = String::from_str("New Ticket Created - #");
    push_decimal(&mut subject, ticket_id);
    let mut body = String::from_str("A new ticket has been created:\n\nTitle: ");
    body.append(title);
    body.append("\nTicket ID: ");
    push_decimal(&mut body, ticket_id);
    body.append(
        "\n\nWe will review your request and get back to you soon.\n\nBest regards,\nSupport Team",
    );
    OutgoingEmail { to: String::from_str(email), subject, body }
}

} // verus!

//! The payments of a profile, summed up: a total per currency and a list of
//! the confirmed payments in the order of their creation.
//!
//! Amounts are kept in minor units throughout, so that every sum is exact;
//! they are rendered in major units with two decimals.

use crate::models::user::DPayment;
use crate::text::{chars_of, decimal, digit_char, push_decimal};
use vstd::prelude::*;

verus! {

/// The status of a payment that was confirmed.
pub const CONFIRMED_STATUS: i32 = 1;

/// What separates the entries of the rendered list.
pub const LINE_BREAK: &'static str = "<br>";

/// The total of the confirmed payments in one currency, in minor units.
#[derive(Debug)]
pub struct CurrencyTotal {
    pub currency: String,
    pub minor_units: i128,
}

/// The totals per currency, in the order in which the currencies were first
/// seen, and the rendered list.
#[derive(Debug)]
pub struct PaymentSummary {
    pub totals: Vec<CurrencyTotal>,
    pub list: String,
}

/// The test for a confirmed payment.
pub open spec fn is_confirmed() -> spec_fn(DPayment) -> bool {
    |payment: DPayment| payment.status == CONFIRMED_STATUS
}

/// The confirmed ones among `payments`, in order.
pub open spec fn confirmed(payments: Seq<DPayment>) -> Seq<DPayment> {
    payments.filter(is_confirmed())
}

/// The sum of the amounts of the first `n` of `payments` that are in
/// `currency`.
pub open spec fn amount_sum(payments: Seq<DPayment>, currency: Seq<char>, n: int) -> int
    decreases n,
{
    if n <= 0 || n > payments.len() {
        0
    } else {
        amount_sum(payments, currency, n - 1) + if payments[n - 1].currency@ == currency {
            payments[n - 1].amount as int
        } else {
            0int
        }
    }
}

/// Position of the total of `currency` among `totals`, from `from` on, or
/// -1.
pub open spec fn total_position(totals: Seq<CurrencyTotal>, currency: Seq<char>, from: int) -> int
    decreases totals.len() - from,
{
    if from < 0 || from >= totals.len() {
        -1
    } else if totals[from].currency@ == currency {
        from
    } else {
        total_position(totals, currency, from + 1)
    }
}

/// The totals once `payment` is added: to the total of its currency, or as
/// the first amount of a currency not seen before.
pub open spec fn added(totals: Seq<CurrencyTotal>, payment: DPayment) -> Seq<CurrencyTotal> {
    let at = total_position(totals, payment.currency@, 0);
    if at >= 0 {
        totals.update(
            at,
            CurrencyTotal {
                currency: totals[at].currency,
                minor_units: (totals[at].minor_units + payment.amount) as i128,
            },
        )
    } else {
        totals.push(
            CurrencyTotal { currency: payment.currency, minor_units: payment.amount as i128 },
        )
    }
}

/// The totals of the first `n` of `payments`.
pub open spec fn totals_of(payments: Seq<DPayment>, n: int) -> Seq<CurrencyTotal>
    decreases n,
{
    if n <= 0 || n > payments.len() {
        Seq::empty()
    } else {
        added(totals_of(payments, n - 1), payments[n - 1])
    }
}

/// Whether timestamp `a` is not after timestamp `b`: the order of texts by
/// their characters from `i` on, a text coming before its extensions.
pub open spec fn not_after(a: Seq<char>, b: Seq<char>, i: int) -> bool
    decreases a.len() - i,
{
    if i < 0 || i >= a.len() {
        true
    } else if i >= b.len() {
        false
    } else if a[i] != b[i] {
        (a[i] as u32) < (b[i] as u32)
    } else {
        not_after(a, b, i + 1)
    }
}

/// Where a payment created at `created_at` goes among `sorted`, searching
/// from `from`: behind every payment that was not created after it.
pub open spec fn time_slot(sorted: Seq<DPayment>, created_at: Seq<char>, from: int) -> int
    decreases sorted.len() - from,
{
    if 0 <= from < sorted.len() && not_after(sorted[from].created_at@, created_at, 0) {
        time_slot(sorted, created_at, from + 1)
    } else {
        from
    }
}

/// `payments` in the order of their creation; payments created at the same
/// time stay in their order.
pub open spec fn chronological(payments: Seq<DPayment>) -> Seq<DPayment>
    decreases payments.len(),
{
    if payments.len() == 0 {
        Seq::empty()
    } else {
        let rest = chronological(payments.drop_last());
        rest.insert(time_slot(rest, payments.last().created_at@, 0), payments.last())
    }
}

/// The upper-case form of a letter of the basic Latin alphabet; any other
/// character as it is.
pub open spec fn upper_char(c: char) -> char {
    if 'a' <= c && c <= 'z' {
        ((c as u32) - 32) as char
    } else {
        c
    }
}

/// `s` with its basic Latin letters in upper case.
pub open spec fn upper(s: Seq<char>) -> Seq<char> {
    s.map_values(|c: char| upper_char(c))
}

/// An amount of minor units in major units with two decimals.
pub open spec fn money_text(amount: int) -> Seq<char> {
    let magnitude = if amount < 0 {
        -amount
    } else {
        amount
    };
    let sign = if amount < 0 {
        "-"@
    } else {
        ""@
    };
    sign + decimal((magnitude / 100) as nat) + "."@ + seq![
        digit_char((magnitude / 10 % 10) as nat),
        digit_char((magnitude % 10) as nat),
    ]
}

/// The entry of a payment in the rendered list: its description, then its
/// currency in upper case and its amount in parentheses.
pub open spec fn entry_text(payment: DPayment) -> Seq<char> {
    payment.description@ + " ("@ + upper(payment.currency@) + " "@ + money_text(
        payment.amount as int,
    ) + ")"@
}

/// The entries of the first `n` of `payments`, joined by line breaks.
pub open spec fn list_text(payments: Seq<DPayment>, n: int) -> Seq<char>
    decreases n,
{
    if n <= 0 || n > payments.len() {
        Seq::empty()
    } else if n == 1 {
        entry_text(payments[0])
    } else {
        list_text(payments, n - 1) + LINE_BREAK@ + entry_text(payments[n - 1])
    }
}

/// Whether timestamp `a` is not after timestamp `b`.
pub fn created_not_after(a: &str, b: &str) -> (r: bool)
    ensures
        r == not_after(a@, b@, 0),
{
    let x = chars_of(a);
    let y = chars_of(b);
    let mut i: usize = 0;
    while i < x.len()
        invariant
            i <= x.len(),
            x@ == a@,
            y@ == b@,
            not_after(a@, b@, 0) == not_after(a@, b@, i as int),
        decreases x.len() - i,
    {
        if i >= y.len() {
            return false;
        }
        if x[i] != y[i] {
            return (x[i] as u32) < (y[i] as u32);
        }
        i += 1;
    }
    true
}

/// A payment with the same fields.
pub fn copy_payment(payment: &DPayment) -> (r: DPayment)
    ensures
        r == *payment,
{
    DPayment {
        status: payment.status,
        currency: payment.currency.clone(),
        amount: payment.amount,
        created_at: payment.created_at.clone(),
        description: payment.description.clone(),
    }
}

/// The confirmed payments, in order.
pub fn confirmed_payments(payments: &Vec<DPayment>) -> (kept: Vec<DPayment>)
    ensures
        kept@ == confirmed(payments@),
{
    let mut kept: Vec<DPayment> = Vec::new();
    let mut i: usize = 0;
    proof {
        crate::sequences::lemma_filter_none(payments@.take(0), is_confirmed());
    }
    while i < payments.len()
        invariant
            i <= payments.len(),
            kept@ == payments@.take(i as int).filter(is_confirmed()),
        decreases payments.len() - i,
    {
        proof {
            assert(payments@.take(i + 1) =~= payments@.take(i as int).push(payments@[i as int]));
            payments@.take(i as int).lemma_filter_push(payments@[i as int], is_confirmed());
        }
        if payments[i].status == CONFIRMED_STATUS {
            kept.push(copy_payment(&payments[i]));
        }
        i += 1;
    }
    assert(payments@.take(payments@.len() as int) =~= payments@);
    kept
}

/// The totals per currency of `payments`, in the order in which the
/// currencies are first seen.
pub fn currency_totals(payments: &Vec<DPayment>) -> (totals: Vec<CurrencyTotal>)
    ensures
        totals@ == totals_of(payments@, payments@.len() as int),
{
    let bound: i128 = 0x8000_0000_0000_0000;
    let mut totals: Vec<CurrencyTotal> = Vec::new();
    let mut i: usize = 0;
    assert(totals@ =~= Seq::empty());
    while i < payments.len()
        invariant
            i <= payments.len(),
            bound == 0x8000_0000_0000_0000,
            totals@ == totals_of(payments@, i as int),
            forall|k: int|
                0 <= k < totals@.len() ==> -(i * bound) <= (#[trigger] totals@[k]).minor_units
                    <= i * bound,
        decreases payments.len() - i,
    {
        let payment = &payments[i];
        let ghost before = totals@;
        let mut at: usize = 0;
        while at < totals.len() && !(totals[at].currency == payment.currency)
            invariant
                at <= totals.len(),
                totals@ == before,
                total_position(totals@, payment.currency@, 0) == total_position(
                    totals@,
                    payment.currency@,
                    at as int,
                ),
            decreases totals.len() - at,
        {
            at += 1;
        }
        proof {
            lemma_total_position(before, payment.currency@, 0);
            assert(i * bound + bound == (i + 1) * bound) by (nonlinear_arith);
            assert(i * bound <= 0xffff_ffff_ffff_ffff * bound) by (nonlinear_arith)
                requires
                    0 <= i <= 0xffff_ffff_ffff_ffff,
                    bound == 0x8000_0000_0000_0000,
            ;
        }
        if at < totals.len() {
            let entry = &mut totals[at];
            entry.minor_units = entry.minor_units + payment.amount as i128;
            assert(totals@ =~= added(before, *payment));
        } else {
            totals.push(
                CurrencyTotal {
                    currency: payment.currency.clone(),
                    minor_units: payment.amount as i128,
                },
            );
        }
        i += 1;
        assert forall|k: int| 0 <= k < totals@.len() implies -(i * bound) <= (
        #[trigger] totals@[k]).minor_units <= i * bound by {
            if k < before.len() && k != at {
                assert(totals@[k] == before[k]);
            }
        }
    }
    totals
}

/// The payments in the order of their creation; payments created at the
/// same time stay in their order.
pub fn sort_by_creation(payments: Vec<DPayment>) -> (sorted: Vec<DPayment>)
    ensures
        sorted@ == chronological(payments@),
{
    let mut sorted: Vec<DPayment> = Vec::new();
    let ghost all = payments@;
    assert(chronological(all.take(0)) =~= sorted@);
    for payment in it: payments
        invariant
            it.seq() == all,
            sorted@ == chronological(all.take(it.index() as int)),
    {
        proof {
            let next = all.take(it.index() + 1);
            assert(next.drop_last() =~= all.take(it.index() as int));
            lemma_time_slot_bounds(sorted@, payment.created_at@, 0);
        }
        let mut at: usize = 0;
        while at < sorted.len() && created_not_after(
            sorted[at].created_at.as_str(),
            payment.created_at.as_str(),
        )
            invariant
                at <= sorted.len(),
                time_slot(sorted@, payment.created_at@, 0) == time_slot(
                    sorted@,
                    payment.created_at@,
                    at as int,
                ),
            decreases sorted.len() - at,
        {
            at += 1;
        }
        sorted.insert(at, payment);
    }
    assert(all.take(all.len() as int) =~= all);
    sorted
}

fn upper_letter(c: char) -> (r: char)
    ensures
        r == upper_char(c),
{
    if 'a' <= c && c <= 'z' {
        let code = c as u8;
        (code - 32) as char
    } else {
        c
    }
}

/// Appends `s` with its basic Latin letters in upper case.
pub fn push_upper(out: &mut String, s: &str)
    ensures
        final(out)@ == old(out)@ + upper(s@),
{
    let chars = chars_of(s);
    let mut i: usize = 0;
    assert(out@ =~= old(out)@ + upper(s@).take(0));
    while i < chars.len()
        invariant
            i <= chars.len(),
            chars@ == s@,
            out@ == old(out)@ + upper(s@).take(i as int),
        decreases chars.len() - i,
    {
        out.push(upper_letter(chars[i]));
        i += 1;
        assert(out@ =~= old(out)@ + upper(s@).take(i as int));
    }
    assert(upper(s@).take(chars@.len() as int) =~= upper(s@));
}

/// Appends an amount of minor units in major units with two decimals.
pub fn push_money(out: &mut String, amount: i64)
    ensures
        final(out)@ == old(out)@ + money_text(amount as int),
{
    let wide = amount as i128;
    let magnitude: u64 = if amount < 0 {
        (-wide) as u64
    } else {
        amount as u64
    };
    if amount < 0 {
        out.append("-");
    } else {
        out.append("");
    }
    push_decimal(out, magnitude / 100);
    out.append(".");
    push_decimal(out, magnitude / 10 % 10);
    push_decimal(out, magnitude % 10);
    proof {
        assert(decimal((magnitude / 10 % 10) as nat) =~= seq![
            digit_char((magnitude / 10 % 10) as nat),
        ]);
        assert(decimal((magnitude % 10) as nat) =~= seq![digit_char((magnitude % 10) as nat)]);
        assert(out@ =~= old(out)@ + money_text(amount as int));
    }
}

/// Renders the list of `payments`, one entry per payment, joined by line
/// breaks.
pub fn render_list(payments: &Vec<DPayment>) -> (list: String)
    ensures
        list@ == list_text(payments@, payments@.len() as int),
{
    let mut list = String::new();
    let mut i: usize = 0;
    assert(list@ =~= list_text(payments@, 0));
    while i < payments.len()
        invariant
            i <= payments.len(),
            list@ == list_text(payments@, i as int),
        decreases payments.len() - i,
    {
        let payment = &payments[i];
        let ghost before = list@;
        if i > 0 {
            list.append(LINE_BREAK);
        }
        list.append(payment.description.as_str());
        list.append(" (");
        push_upper(&mut list, payment.currency.as_str());
        list.append(" ");
        push_money(&mut list, payment.amount);
        list.append(")");
        i += 1;
        assert(list@ =~= list_text(payments@, i as int)) by {
            if i > 1 {
                assert(list@ =~= before + LINE_BREAK@ + entry_text(*payment));
            } else {
                assert(before =~= Seq::<char>::empty());
                assert(list@ =~= entry_text(*payment));
            }
        }
    }
    list
}

/// Sums up the payments of a profile: only confirmed payments count; each
/// currency gets the total of its payments; the list names the confirmed
/// payments in the order of their creation.
pub fn summarize_payments(payments: &Vec<DPayment>) -> (summary: PaymentSummary)
    ensures
        summary.totals@ == totals_of(confirmed(payments@), confirmed(payments@).len() as int),
        summary.list@ == list_text(
            chronological(confirmed(payments@)),
            chronological(confirmed(payments@)).len() as int,
        ),
{
    let kept = confirmed_payments(payments);
    let totals = currency_totals(&kept);
    let sorted = sort_by_creation(kept);
    let list = render_list(&sorted);
    PaymentSummary { totals, list }
}

/// The total of `currency` among `totals`, if the currency has one.
pub fn total_for(totals: &Vec<CurrencyTotal>, currency: &str) -> (r: Option<i128>)
    ensures
        match r {
            Some(amount) => total_position(totals@, currency@, 0) >= 0 && amount
                == totals@[total_position(totals@, currency@, 0)].minor_units,
            None => total_position(totals@, currency@, 0) < 0,
        },
{
    let mut at: usize = 0;
    while at < totals.len()
        invariant
            at <= totals.len(),
            total_position(totals@, currency@, 0) == total_position(totals@, currency@, at as int),
        decreases totals.len() - at,
    {
        if crate::text::same_text(totals[at].currency.as_str(), currency) {
            return Some(totals[at].minor_units);
        }
        at += 1;
    }
    None
}

/// What the search for a currency finds: the first total in it, or nothing
/// when no total from `from` on is in it.
pub proof fn lemma_total_position(totals: Seq<CurrencyTotal>, currency: Seq<char>, from: int)
    requires
        0 <= from,
    ensures
        ({
            let at = total_position(totals, currency, from);
            if at < 0 {
                at == -1 && forall|i: int|
                    from <= i < totals.len() ==> totals[i].currency@ != currency
            } else {
                &&& from <= at < totals.len()
                &&& totals[at].currency@ == currency
                &&& forall|i: int| from <= i < at ==> totals[i].currency@ != currency
            }
        }),
    decreases totals.len() - from,
{
    if from < totals.len() && totals[from].currency@ != currency {
        lemma_total_position(totals, currency, from + 1);
    }
}

/// The slot of a payment lies behind the payments that were not created
/// after it and before one that was.
pub proof fn lemma_time_slot_bounds(sorted: Seq<DPayment>, created_at: Seq<char>, from: int)
    requires
        0 <= from <= sorted.len(),
    ensures
        from <= time_slot(sorted, created_at, from) <= sorted.len(),
        forall|i: int|
            from <= i < time_slot(sorted, created_at, from) ==> not_after(
                (#[trigger] sorted[i]).created_at@,
                created_at,
                0,
            ),
        time_slot(sorted, created_at, from) < sorted.len() ==> !not_after(
            sorted[time_slot(sorted, created_at, from)].created_at@,
            created_at,
            0,
        ),
    decreases sorted.len() - from,
{
    if from < sorted.len() && not_after(sorted[from].created_at@, created_at, 0) {
        lemma_time_slot_bounds(sorted, created_at, from + 1);
    }
}

/// Of two timestamps, one is not after the other.
pub proof fn lemma_not_after_total(a: Seq<char>, b: Seq<char>, i: int)
    requires
        0 <= i,
    ensures
        not_after(a, b, i) || not_after(b, a, i),
    decreases a.len() - i,
{
    if i < a.len() && i < b.len() {
        if a[i] == b[i] {
            lemma_not_after_total(a, b, i + 1);
        } else {
            vstd::utf8::char_u32_cast(a[i], a[i] as u32);
            vstd::utf8::char_u32_cast(b[i], b[i] as u32);
        }
    }
}

/// What is not after a timestamp is not after any later one.
pub proof fn lemma_not_after_transitive(a: Seq<char>, b: Seq<char>, c: Seq<char>, i: int)
    requires
        0 <= i,
        not_after(a, b, i),
        not_after(b, c, i),
    ensures
        not_after(a, c, i),
    decreases a.len() - i,
{
    if i < a.len() && a[i] == b[i] && b[i] == c[i] {
        lemma_not_after_transitive(a, b, c, i + 1);
    }
}

/// Whether no payment of `payments` was created after a later one of them.
pub open spec fn in_order_of_creation(payments: Seq<DPayment>) -> bool {
    forall|i: int, j: int|
        0 <= i <= j < payments.len() ==> not_after(
            payments[i].created_at@,
            payments[j].created_at@,
            0,
        )
}

/// The payments in chronological order are as many as before and in the
/// order of their creation.
pub proof fn lemma_chronological_in_order(payments: Seq<DPayment>)
    ensures
        chronological(payments).len() == payments.len(),
        in_order_of_creation(chronological(payments)),
    decreases payments.len(),
{
    if payments.len() > 0 {
        let rest = chronological(payments.drop_last());
        let x = payments.last();
        let key = x.created_at@;
        let p = time_slot(rest, key, 0);
        lemma_chronological_in_order(payments.drop_last());
        lemma_time_slot_bounds(rest, key, 0);
        let out = rest.insert(p, x);
        assert forall|i: int, j: int| 0 <= i <= j < out.len() implies not_after(
            out[i].created_at@,
            out[j].created_at@,
            0,
        ) by {
            if i == j {
                lemma_not_after_total(out[i].created_at@, out[i].created_at@, 0);
            } else if j < p {
                assert(out[i] == rest[i] && out[j] == rest[j]);
            } else if j == p {
                assert(out[i] == rest[i]);
            } else {
                assert(out[j] == rest[j - 1]);
                if i < p {
                    assert(out[i] == rest[i]);
                } else if i == p {
                    lemma_not_after_total(rest[p].created_at@, key, 0);
                    assert(not_after(rest[p].created_at@, rest[j - 1].created_at@, 0));
                    lemma_not_after_transitive(
                        key,
                        rest[p].created_at@,
                        rest[j - 1].created_at@,
                        0,
                    );
                } else {
                    assert(out[i] == rest[i - 1]);
                }
            }
        }
    }
}

/// The payments in chronological order are the payments, each as often as
/// it was listed.
pub proof fn lemma_chronological_permutes(payments: Seq<DPayment>)
    ensures
        chronological(payments).to_multiset() == payments.to_multiset(),
    decreases payments.len(),
{
    if payments.len() == 0 {
        assert(chronological(payments) =~= payments);
    } else {
        let head = payments.drop_last();
        let rest = chronological(head);
        let x = payments.last();
        lemma_chronological_permutes(head);
        lemma_time_slot_bounds(rest, x.created_at@, 0);
        vstd::seq_lib::to_multiset_insert(rest, time_slot(rest, x.created_at@, 0), x);
        vstd::seq_lib::to_multiset_build(head, x);
        assert(payments =~= head.push(x));
    }
}

/// A total is fixed by where its currency stands first.
proof fn lemma_total_position_unique(
    totals: Seq<CurrencyTotal>,
    currency: Seq<char>,
    from: int,
    at: int,
)
    requires
        0 <= from <= at < totals.len(),
        totals[at].currency@ == currency,
        forall|i: int| from <= i < at ==> totals[i].currency@ != currency,
    ensures
        total_position(totals, currency, from) == at,
    decreases at - from,
{
    if from < at {
        lemma_total_position_unique(totals, currency, from + 1, at);
    }
}

/// The total of a currency is the sum of the amounts of the payments in
/// it; a currency has a total exactly when a payment is in it.
pub proof fn lemma_totals_are_sums(payments: Seq<DPayment>, currency: Seq<char>, n: int)
    requires
        0 <= n <= payments.len(),
        n <= u64::MAX,
    ensures
        ({
            let totals = totals_of(payments, n);
            let at = total_position(totals, currency, 0);
            &&& -(n * 0x8000_0000_0000_0000) <= amount_sum(payments, currency, n) <= n
                * 0x8000_0000_0000_0000
            &&& if at >= 0 {
                &&& at < totals.len()
                &&& totals[at].currency@ == currency
                &&& totals[at].minor_units == amount_sum(payments, currency, n)
                &&& exists|i: int| 0 <= i < n && payments[i].currency@ == currency
            } else {
                &&& amount_sum(payments, currency, n) == 0
                &&& forall|i: int| 0 <= i < n ==> payments[i].currency@ != currency
            }
        }),
    decreases n,
{
    let bound = 0x8000_0000_0000_0000int;
    lemma_total_position(totals_of(payments, n), currency, 0);
    if n > 0 {
        let prev = totals_of(payments, n - 1);
        let x = payments[n - 1];
        let q = total_position(prev, x.currency@, 0);
        let out = totals_of(payments, n);
        lemma_totals_are_sums(payments, currency, n - 1);
        lemma_totals_are_sums(payments, x.currency@, n - 1);
        lemma_total_position(prev, currency, 0);
        lemma_total_position(prev, x.currency@, 0);
        let before = total_position(prev, currency, 0);
        assert((n - 1) * bound + bound == n * bound) by (nonlinear_arith);
        assert(n * bound <= 0xffff_ffff_ffff_ffff * bound) by (nonlinear_arith)
            requires
                0 <= n <= 0xffff_ffff_ffff_ffff,
                bound == 0x8000_0000_0000_0000,
        ;
        if q >= 0 {
            assert forall|i: int| 0 <= i < out.len() implies (#[trigger] out[i]).currency@
                == prev[i].currency@ by {}
            if before >= 0 {
                lemma_total_position_unique(out, currency, 0, before);
                let i = choose|i: int| 0 <= i < n - 1 && payments[i].currency@ == currency;
                assert(0 <= i < n && payments[i].currency@ == currency);
            } else {
                assert(x.currency@ != currency);
            }
        } else {
            if x.currency@ == currency {
                lemma_total_position_unique(out, currency, 0, prev.len() as int);
                assert(0 <= n - 1 < n && payments[n - 1].currency@ == currency);
            } else if before >= 0 {
                lemma_total_position_unique(out, currency, 0, before);
                let i = choose|i: int| 0 <= i < n - 1 && payments[i].currency@ == currency;
                assert(0 <= i < n && payments[i].currency@ == currency);
            }
        }
    }
}

} // verus!

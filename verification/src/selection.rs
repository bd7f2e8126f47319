//! How a command picks its bank.
use vstd::prelude::*;

use crate::banks;
use crate::banks::{BankConfig, BankRegistry};
use crate::text;

verus! {

/// What the command line says about the bank: `--url`, `--blz` and `--bank`.
#[derive(Debug)]
pub struct BankSelection {
    pub url: Option<String>,
    pub blz: Option<String>,
    pub bank: Option<String>,
}

/// The bank that a command talks to.
#[derive(Debug)]
pub struct ResolvedBank {
    /// BLZ used as the canonical bank identifier.
    pub blz: String,
    pub name: String,
    pub url: String,
    /// The full configuration, for banks that are not in the registry.
    pub config: BankConfig,
}

/// The properties of a bank.
pub struct BankView {
    pub name: Seq<char>,
    pub blz: Seq<char>,
    pub bic: Seq<char>,
    pub url: Seq<char>,
}

pub open spec fn config_view(config: BankConfig) -> BankView {
    BankView {
        name: config.name@,
        blz: config.blz@,
        bic: config.bic@,
        url: config.url@,
    }
}

impl ResolvedBank {
    /// The bank and its configuration have the properties `v`.
    pub open spec fn is_bank(&self, v: BankView) -> bool {
        &&& self.blz@ == v.blz
        &&& self.name@ == v.name
        &&& self.url@ == v.url
        &&& config_view(self.config) == v
    }

    /// The bank of a configuration.
    pub fn of_config(config: BankConfig) -> (r: ResolvedBank)
        ensures
            r.is_bank(config_view(config)),
            r.config == config,
    {
        ResolvedBank {
            blz: config.blz.as_str().to_owned(),
            name: config.name.as_str().to_owned(),
            url: config.url.as_str().to_owned(),
            config,
        }
    }

    /// The configuration that a dialog is opened with: the registered one where the registry
    /// knows the BLZ, else the bank's own.
    pub fn to_bank_ops(&self, registry: &BankRegistry) -> (r: BankOps)
        ensures
            r == served_bank(registry@, self.blz@, self.config),
    {
        match banks::bank_by_blz(registry, self.blz.as_str()) {
            Some(config) => BankOps::Registered(config),
            None => BankOps::Generic(self.config.clone()),
        }
    }
}

/// The operations that serve a bank: those of a registered bank, or the generic ones.
#[derive(Debug)]
pub enum BankOps {
    Registered(BankConfig),
    Generic(BankConfig),
}

/// The bank with the BLZ `blz` as the registry has it, else `config`.
pub open spec fn served_bank(known: Seq<BankConfig>, blz: Seq<char>, config: BankConfig) -> BankOps {
    match banks::bank_with_blz(known, blz) {
        Some(registered) => BankOps::Registered(registered),
        None => BankOps::Generic(config),
    }
}

/// The BLZ of a bank with an address of its own: `--blz`, else `--bank`, else empty.
pub open spec fn custom_blz(sel: BankSelection) -> Seq<char> {
    match (sel.blz, sel.bank) {
        (Some(blz), _) => blz@,
        (None, Some(bank)) => bank@,
        (None, None) => ""@,
    }
}

/// The bank that a selection names. An explicit address takes priority; without one `--bank`,
/// then `--blz` is looked up in the registry.
pub open spec fn selected_bank(known: Seq<BankConfig>, sel: BankSelection) -> Result<
    BankView,
    Seq<char>,
> {
    match (sel.url, sel.bank, sel.blz) {
        (Some(url), _, _) => {
            let blz = custom_blz(sel);
            let name = match banks::bank_with_blz(known, blz) {
                Some(b) => b.name@,
                None => "Custom"@,
            };
            Ok(BankView { name, blz, bic: ""@, url: url@ })
        },
        (None, Some(bank), _) => match banks::bank_with_blz(known, bank@) {
            Some(config) => Ok(config_view(config)),
            None => Err(
                "Unknown BLZ '"@ + bank@
                    + "'. Use --blz <blz> or --url <url>. See 'banks' subcommand for a list."@,
            ),
        },
        (None, None, Some(blz)) => match banks::bank_with_blz(known, blz@) {
            Some(config) => Ok(config_view(config)),
            None => Err("Unknown BLZ '"@ + blz@ + "'. Use --url <url> for a custom endpoint."@),
        },
        (None, None, None) => Err(
            "No bank specified. Use --bank <blz>, --blz <blz>, or --url <url>"@,
        ),
    }
}

/// Picks the bank that the command line names.
pub fn resolve_bank(registry: &BankRegistry, sel: &BankSelection) -> (r: Result<
    ResolvedBank,
    String,
>)
    ensures
        match selected_bank(registry@, *sel) {
            Ok(v) => r is Ok && r->Ok_0.is_bank(v),
            Err(message) => r is Err && r->Err_0@ == message,
        },
{
    if let Some(url) = &sel.url {
        let blz = match (&sel.blz, &sel.bank) {
            (Some(blz), _) => blz.clone(),
            (None, Some(bank)) => bank.clone(),
            (None, None) => "".to_string(),
        };
        let name = match banks::bank_by_blz(registry, blz.as_str()) {
            Some(b) => b.name.as_str().to_owned(),
            None => "Custom".to_string(),
        };
        let config = BankConfig::new(name, blz, "".to_string(), url.clone());
        return Ok(ResolvedBank::of_config(config));
    }
    if let Some(bank) = &sel.bank {
        return match banks::bank_by_blz(registry, bank.as_str()) {
            Some(config) => Ok(ResolvedBank::of_config(config)),
            None => {
                let mut message = "Unknown BLZ '".to_string();
                message.append(bank.as_str());
                message.append(
                    "'. Use --blz <blz> or --url <url>. See 'banks' subcommand for a list.",
                );
                Err(message)
            },
        };
    }
    if let Some(blz) = &sel.blz {
        return match banks::bank_by_blz(registry, blz.as_str()) {
            Some(config) => Ok(ResolvedBank::of_config(config)),
            None => {
                let mut message = "Unknown BLZ '".to_string();
                message.append(blz.as_str());
                message.append("'. Use --url <url> for a custom endpoint.");
                Err(message)
            },
        };
    }
    Err("No bank specified. Use --bank <blz>, --blz <blz>, or --url <url>".to_string())
}

// ---------------------------------------------------------------------------------------------
// Interactive choice
// ---------------------------------------------------------------------------------------------

/// The number that a row of digits spells.
pub open spec fn numeral_value(s: Seq<char>) -> nat
    decreases s.len(),
{
    if s.len() == 0 {
        0
    } else {
        (numeral_value(s.drop_last()) * 10 + (s.last() as int - '0' as int)) as nat
    }
}

/// The digits of a number that may have a plus sign in front.
pub open spec fn unsigned_digits(s: Seq<char>) -> Seq<char> {
    if s.len() > 0 && s[0] == '+' {
        s.skip(1)
    } else {
        s
    }
}

/// The number that `s` spells: at least one digit, an optional plus sign in front, and no more
/// than the largest `usize`.
pub open spec fn parsed_number(s: Seq<char>) -> Option<nat> {
    let d = unsigned_digits(s);
    if d.len() > 0 && text::every(d, |c: char| text::is_ascii_digit(c)) && numeral_value(d)
        <= usize::MAX {
        Some(numeral_value(d))
    } else {
        None
    }
}

proof fn lemma_numeral_grows(s: Seq<char>, n: int)
    requires
        0 <= n <= s.len(),
        text::every(s, |c: char| text::is_ascii_digit(c)),
    ensures
        numeral_value(s.take(n)) <= numeral_value(s),
    decreases s.len(),
{
    if n < s.len() {
        assert forall|i: int| 0 <= i < s.drop_last().len() implies text::is_ascii_digit(
            #[trigger] s.drop_last()[i],
        ) by {
            assert(text::is_ascii_digit(s[i]));
        }
        lemma_numeral_grows(s.drop_last(), n);
        assert(s.drop_last().take(n) =~= s.take(n));
        assert(text::is_ascii_digit(s[s.len() - 1]));
    } else {
        assert(s.take(n) =~= s);
    }
}

/// Reads a number.
pub fn parse_number(s: &str) -> (r: Option<usize>)
    ensures
        r is Some <==> parsed_number(s@) is Some,
        r matches Some(n) ==> parsed_number(s@) == Some(n as nat),
{
    let chars = text::chars_of(s);
    let from: usize = if chars.len() > 0 && chars[0] == '+' {
        1
    } else {
        0
    };
    let ghost d = unsigned_digits(s@);
    assert(d =~= chars@.skip(from as int));
    if from == chars.len() {
        return None;
    }
    let mut value: usize = 0;
    let mut i: usize = from;
    assert(d.take(0) =~= Seq::empty());
    while i < chars.len()
        invariant
            from <= i <= chars@.len(),
            d == chars@.skip(from as int),
            forall|j: int| 0 <= j < i - from ==> text::is_ascii_digit(#[trigger] d[j]),
            value == numeral_value(d.take(i - from)),
            d == unsigned_digits(s@),
        decreases chars@.len() - i,
    {
        let c = chars[i];
        assert(c == d[i - from]);
        if !('0' <= c && c <= '9') {
            assert(!text::is_ascii_digit(d[i - from]));
            return None;
        }
        let digit = c as usize - 48;
        assert(d.take(i - from + 1).drop_last() =~= d.take(i - from));
        let ghost next = numeral_value(d.take(i - from + 1));
        assert(next == value * 10 + digit);
        if value > usize::MAX / 10 || value * 10 > usize::MAX - digit {
            proof {
                assert(next > usize::MAX);
                if text::every(d, |c: char| text::is_ascii_digit(c)) {
                    lemma_numeral_grows(d, i - from + 1);
                }
            }
            return None;
        }
        value = value * 10 + digit;
        i += 1;
    }
    assert(d.take(i - from) =~= d);
    Some(value)
}

/// The place in the list that an answer to the bank menu means: an empty or unreadable answer
/// means the first entry, a number from 1 to `n` that entry, and any other number none of them.
pub open spec fn menu_choice(answer: Seq<char>, n: nat) -> Option<nat> {
    let number = match parsed_number(answer) {
        Some(v) => v,
        None => 1,
    };
    if 0 < number <= n {
        Some((number - 1) as nat)
    } else {
        None
    }
}

/// `r` is the bank that an answer to the bank menu means.
pub open spec fn is_choice(
    known: Seq<BankConfig>,
    answer: Seq<char>,
    r: Option<ResolvedBank>,
) -> bool {
    match menu_choice(answer, known.len()) {
        Some(i) => r is Some && r->0.is_bank(config_view(known[i as int])) && r->0.config
            == known[i as int],
        None => r is None,
    }
}

/// The bank that an answer to the bank menu means, or nothing where the user wants to enter an
/// address.
pub fn choose_bank(registry: &BankRegistry, answer: &str) -> (r: Option<ResolvedBank>)
    ensures
        is_choice(registry@, answer@, r),
{
    let number = match parse_number(answer) {
        Some(n) => n,
        None => 1,
    };
    if number > 0 && number <= registry.len() {
        Some(ResolvedBank::of_config(registry.get(number - 1).clone()))
    } else {
        None
    }
}

/// A bank that the user describes by its address and BLZ.
pub open spec fn described_bank(url: Seq<char>, blz: Seq<char>) -> BankView {
    BankView { name: "Custom"@, blz, bic: ""@, url }
}

/// A bank that the user describes by its address and BLZ.
pub fn custom_bank(url: String, blz: String) -> (r: ResolvedBank)
    ensures
        r.is_bank(described_bank(url@, blz@)),
{
    ResolvedBank::of_config(BankConfig::new("Custom".to_string(), blz, "".to_string(), url))
}

/// The first `n` entries of the bank menu.
pub open spec fn menu_entries(known: Seq<BankConfig>, n: nat) -> Seq<char>
    decreases n,
{
    if n == 0 {
        "Available banks:\n"@
    } else {
        menu_entries(known, (n - 1) as nat) + "  "@ + text::decimal(n) + ". "@ + known[n
            - 1].name@ + " (BLZ: "@ + known[n - 1].blz@ + ")\n"@
    }
}

/// The bank menu: the known banks by number, and a last entry for an address of one's own.
pub open spec fn bank_menu_text(known: Seq<BankConfig>) -> Seq<char> {
    menu_entries(known, known.len()) + "  "@ + text::decimal(known.len() + 1) + ". Custom URL\n"@
}

/// The bank menu.
pub fn bank_menu(registry: &BankRegistry) -> (r: String)
    ensures
        r@ == bank_menu_text(registry@),
{
    let mut out = "Available banks:\n".to_string();
    let mut i: usize = 0;
    while i < registry.len()
        invariant
            i <= registry@.len(),
            out@ == menu_entries(registry@, i as nat),
        decreases registry@.len() - i,
    {
        let bank = registry.get(i);
        out.append("  ");
        text::push_decimal(&mut out, i as u128 + 1);
        out.append(". ");
        out.append(bank.name.as_str());
        out.append(" (BLZ: ");
        out.append(bank.blz.as_str());
        out.append(")\n");
        i += 1;
    }
    out.append("  ");
    text::push_decimal(&mut out, registry.len() as u128 + 1);
    out.append(". Custom URL\n");
    out
}

// ---------------------------------------------------------------------------------------------
// Listing
// ---------------------------------------------------------------------------------------------

/// The first `n` characters of `s`.
pub open spec fn first_chars(s: Seq<char>, n: nat) -> Seq<char> {
    if s.len() > n {
        s.take(n as int)
    } else {
        s
    }
}

fn take_chars(s: &str, n: usize) -> (r: String)
    ensures
        r@ == first_chars(s@, n as nat),
{
    let chars = text::chars_of(s);
    if chars.len() > n {
        let r = text::string_of(&chars, 0, n);
        assert(r@ =~= s@.take(n as int));
        r
    } else {
        s.to_owned()
    }
}

/// One row of the bank table.
pub open spec fn bank_row(bank: BankConfig) -> Seq<char> {
    text::padded_right(bank.blz@, 12) + " "@ + text::padded_right(bank.bic@, 14) + " "@
        + text::padded_right(first_chars(bank.name@, 40), 40) + " "@ + bank.url@ + "\n"@
}

fn row_text(bank: &BankConfig) -> (r: String)
    ensures
        r@ == bank_row(*bank),
{
    let mut out = text::pad_right(bank.blz.as_str(), 12);
    out.append(" ");
    out.append(text::pad_right(bank.bic.as_str(), 14).as_str());
    out.append(" ");
    out.append(text::pad_right(take_chars(bank.name.as_str(), 40).as_str(), 40).as_str());
    out.append(" ");
    out.append(bank.url.as_str());
    out.append("\n");
    out
}

/// The heading of the bank table.
pub open spec fn bank_heading(n: nat) -> Seq<char> {
    "Known banks ("@ + text::decimal(n) + " total):\n"@ + text::padded_right("BLZ"@, 12) + " "@
        + text::padded_right("BIC"@, 14) + " "@ + text::padded_right("Name"@, 40) + " "@ + "URL\n"@
        + text::repeated('-', 100) + "\n"@
}

/// The table of known banks.
pub open spec fn bank_table_text(known: Seq<BankConfig>) -> Seq<char> {
    bank_heading(known.len()) + text::lines_of(known, |b: BankConfig| bank_row(b))
}

/// The table of known banks.
pub fn bank_table(registry: &BankRegistry) -> (r: String)
    ensures
        r@ == bank_table_text(registry@),
{
    let mut out = "Known banks (".to_string();
    text::push_decimal(&mut out, registry.len() as u128);
    out.append(" total):\n");
    out.append(text::pad_right("BLZ", 12).as_str());
    out.append(" ");
    out.append(text::pad_right("BIC", 14).as_str());
    out.append(" ");
    out.append(text::pad_right("Name", 40).as_str());
    out.append(" ");
    out.append("URL\n");
    text::push_repeated(&mut out, '-', 100);
    out.append("\n");
    let ghost heading = out@;
    let ghost row_of = |b: BankConfig| bank_row(b);
    assert(registry@.take(0) =~= Seq::empty());
    assert(out@ =~= heading + text::lines_of(registry@.take(0), row_of));
    let mut i: usize = 0;
    while i < registry.len()
        invariant
            i <= registry@.len(),
            heading == bank_heading(registry@.len()),
            row_of == (|b: BankConfig| bank_row(b)),
            out@ == heading + text::lines_of(registry@.take(i as int), row_of),
        decreases registry@.len() - i,
    {
        let bank = registry.get(i);
        let row = row_text(bank);
        out.append(row.as_str());
        proof {
            text::lemma_lines_step(registry@, row_of, i as int);
            assert(out@ =~= heading + text::lines_of(registry@.take(i + 1), row_of));
        }
        i += 1;
    }
    assert(registry@.take(i as int) =~= registry@);
    out
}

// ---------------------------------------------------------------------------------------------
// Laws
// ---------------------------------------------------------------------------------------------

/// `b` has the name, the BLZ, the BIC and the address of `config`.
pub open spec fn has_data_of(b: ResolvedBank, config: BankConfig) -> bool {
    &&& b.blz@ == config.blz@ && b.config.blz@ == config.blz@
    &&& b.name@ == config.name@ && b.config.name@ == config.name@
    &&& b.url@ == config.url@ && b.config.url@ == config.url@
    &&& b.config.bic@ == config.bic@
}

/// Without an address on the command line, `--bank` picks the known bank with that BLZ, and
/// `--blz` does so where there is no `--bank`. What no bank is known by is an error that names it,
/// and so is a command line that says nothing of a bank.
pub proof fn law_bank_is_picked_by_its_blz(
    known: Seq<BankConfig>,
    sel: BankSelection,
    i: int,
    b: ResolvedBank,
)
    requires
        banks::sound_table(known),
        sel.url is None,
        0 <= i < known.len(),
    ensures
        sel.bank is Some && sel.bank->0@ == known[i].blz@ ==> selected_bank(known, sel) is Ok && (
        b.is_bank(selected_bank(known, sel)->Ok_0) <==> has_data_of(b, known[i])),
        sel.bank is None && sel.blz is Some && sel.blz->0@ == known[i].blz@ ==> selected_bank(
            known,
            sel,
        ) is Ok && (b.is_bank(selected_bank(known, sel)->Ok_0) <==> has_data_of(b, known[i])),
{
    banks::law_every_bank_is_found(known, i, known[i].blz@);
}

/// A BLZ that no known bank has is an error that names it, and so is a command line that says
/// nothing of a bank.
pub proof fn law_unknown_bank_is_an_error(known: Seq<BankConfig>, sel: BankSelection)
    requires
        sel.url is None,
    ensures
        sel.bank is Some && (forall|i: int|
            0 <= i < known.len() ==> (#[trigger] known[i]).blz@ != sel.bank->0@) ==> selected_bank(
            known,
            sel,
        ) == Err::<BankView, Seq<char>>(
            "Unknown BLZ '"@ + sel.bank->0@
                + "'. Use --blz <blz> or --url <url>. See 'banks' subcommand for a list."@,
        ),
        sel.bank is None && sel.blz is Some && (forall|i: int|
            0 <= i < known.len() ==> (#[trigger] known[i]).blz@ != sel.blz->0@) ==> selected_bank(
            known,
            sel,
        ) == Err::<BankView, Seq<char>>(
            "Unknown BLZ '"@ + sel.blz->0@ + "'. Use --url <url> for a custom endpoint."@,
        ),
        sel.bank is None && sel.blz is None ==> selected_bank(known, sel) == Err::<
            BankView,
            Seq<char>,
        >("No bank specified. Use --bank <blz>, --blz <blz>, or --url <url>"@),
{
}

/// An address on the command line is the one that is used, whatever else is given. Its BLZ is that
/// of `--blz`, else that of `--bank`, else empty, and its name that of the known bank with this
/// BLZ, where there is one. It has no BIC.
pub proof fn law_address_takes_priority(known: Seq<BankConfig>, sel: BankSelection)
    requires
        sel.url is Some,
    ensures
        selected_bank(known, sel) is Ok,
        ({
            let v = selected_bank(known, sel)->Ok_0;
            &&& v.url == sel.url->0@
            &&& v.bic.len() == 0
            &&& sel.blz is Some ==> v.blz == sel.blz->0@
            &&& sel.blz is None && sel.bank is Some ==> v.blz == sel.bank->0@
            &&& sel.blz is None && sel.bank is None ==> v.blz.len() == 0
            &&& (forall|i: int| 0 <= i < known.len() ==> (#[trigger] known[i]).blz@ != v.blz)
                ==> v.name == "Custom"@
            &&& forall|i: int|
                0 <= i < known.len() && banks::sound_table(known) && (#[trigger] known[i]).blz@
                    == v.blz ==> v.name == known[i].name@
        }),
{
    reveal_strlit("");
    let v = selected_bank(known, sel)->Ok_0;
    assert forall|i: int|
        0 <= i < known.len() && banks::sound_table(known) && (#[trigger] known[i]).blz@
            == v.blz implies v.name == known[i].name@ by {
        banks::law_every_bank_is_found(known, i, v.blz);
    }
}

/// Decimal digits are read as their number, with or without a plus sign in front, and are not read
/// where the number is too large.
pub proof fn law_numbers_are_read(d: Seq<char>)
    requires
        d.len() > 0,
        forall|i: int| 0 <= i < d.len() ==> '0' <= #[trigger] d[i] <= '9',
    ensures
        text::number_in(d) <= usize::MAX ==> parsed_number(d) == Some(text::number_in(d) as nat)
            && parsed_number(seq!['+'] + d) == Some(text::number_in(d) as nat),
        text::number_in(d) > usize::MAX ==> parsed_number(d) is None && parsed_number(
            seq!['+'] + d,
        ) is None,
{
    assert(text::every(d, |c: char| text::is_ascii_digit(c)));
    lemma_numeral_value(d);
    assert(d[0] != '+');
    assert(unsigned_digits(d) == d);
    assert((seq!['+'] + d).skip(1) =~= d);
    assert(unsigned_digits(seq!['+'] + d) == d);
}

/// Nothing but digits is a number: no text is read that has no digit, or a character other than a
/// digit, but for a plus sign in front.
pub proof fn law_nothing_else_is_a_number(s: Seq<char>, i: int)
    requires
        0 <= i < s.len() && !('0' <= s[i] <= '9') && (i > 0 || s[0] != '+') || s.len() == 0 || s
            == seq!['+'],
    ensures
        parsed_number(s) is None,
{
    let d = unsigned_digits(s);
    if s.len() > 0 && s != seq!['+'] {
        if s[0] == '+' {
            assert(d[i - 1] == s[i]);
            assert(!text::is_ascii_digit(d[i - 1]));
        } else {
            assert(!text::is_ascii_digit(d[i]));
        }
    } else {
        assert(d.len() == 0);
    }
}

proof fn lemma_numeral_value(d: Seq<char>)
    requires
        text::every(d, |c: char| text::is_ascii_digit(c)),
    ensures
        numeral_value(d) == text::number_in(d),
    decreases d.len(),
{
    if d.len() > 0 {
        let front = d.drop_last();
        assert forall|i: int| 0 <= i < front.len() implies text::is_ascii_digit(
            #[trigger] front[i],
        ) by {
            assert(text::is_ascii_digit(d[i]));
        }
        assert(text::is_ascii_digit(d[d.len() - 1]));
        lemma_numeral_value(front);
    }
}

/// The number of a bank in the menu picks that bank; an answer that is no number picks the first
/// one; zero and the numbers behind the last bank pick none.
pub proof fn law_menu_answers(answer: Seq<char>, n: nat, k: nat)
    ensures
        1 <= k <= n && k <= usize::MAX ==> menu_choice(text::decimal(k), n) == Some(
            (k - 1) as nat,
        ),
        n < k <= usize::MAX ==> menu_choice(text::decimal(k), n) is None,
        menu_choice(text::decimal(0), n) is None,
        parsed_number(answer) is None ==> menu_choice(answer, n) == (if n > 0 {
            Some(0nat)
        } else {
            None
        }),
{
    text::law_numeral_is_read_back(k);
    text::law_numeral_is_read_back(0);
    law_numbers_are_read(text::decimal(k));
    law_numbers_are_read(text::decimal(0));
}

/// `t` is the menu entry `n` for an address of one's own.
pub open spec fn is_custom_entry(t: Seq<char>, n: nat) -> bool {
    exists|number: Seq<char>| #[trigger]
        text::reads_as_number(number, n as int) && t == "  "@ + number + ". Custom URL\n"@
}

/// `t` is the menu entry `n` for the bank `bank`.
pub open spec fn is_bank_entry(t: Seq<char>, n: nat, bank: BankConfig) -> bool {
    exists|number: Seq<char>| #[trigger]
        text::reads_as_number(number, n as int) && t == "  "@ + number + ". "@ + bank.name@
            + " (BLZ: "@ + bank.blz@ + ")\n"@
}

/// The menu has an entry for every known bank under its number, with its name and BLZ, and behind
/// them one for an address of one's own.
pub proof fn law_menu_lists_every_bank(known: Seq<BankConfig>, bank: BankConfig)
    ensures
        exists|last: Seq<char>| #[trigger]
            is_custom_entry(last, 1) && bank_menu_text(Seq::empty()) == "Available banks:\n"@ + last,
        exists|entries: Seq<char>, last: Seq<char>, entry: Seq<char>, next_last: Seq<char>|
            #![trigger text::is_made_of(bank_menu_text(known), entries, last), is_bank_entry(entry, known.len() + 1, bank), is_custom_entry(next_last, known.len() + 2)]
            {
                &&& is_custom_entry(last, known.len() + 1)
                &&& is_bank_entry(entry, known.len() + 1, bank)
                &&& is_custom_entry(next_last, known.len() + 2)
                &&& text::is_made_of(bank_menu_text(known), entries, last)
                &&& bank_menu_text(known.push(bank)) == entries + entry + next_last
            },
{
    let all = known.push(bank);
    let n = known.len();
    let entries = menu_entries(known, n);
    lemma_same_entries(known, all, n);
    text::law_numeral_is_read_back(1);
    text::law_numeral_is_read_back(n + 1);
    text::law_numeral_is_read_back(n + 2);
    let first = "  "@ + text::decimal(1) + ". Custom URL\n"@;
    let last = "  "@ + text::decimal(n + 1) + ". Custom URL\n"@;
    let next_last = "  "@ + text::decimal(n + 2) + ". Custom URL\n"@;
    let entry = "  "@ + text::decimal(n + 1) + ". "@ + bank.name@ + " (BLZ: "@ + bank.blz@ + ")\n"@;
    assert(is_custom_entry(first, 1));
    assert(is_custom_entry(last, n + 1));
    assert(is_custom_entry(next_last, n + 2));
    assert(is_bank_entry(entry, n + 1, bank));
    assert(bank_menu_text(Seq::empty()) =~= "Available banks:\n"@ + first);
    assert(bank_menu_text(known) =~= entries + last);
    assert(text::is_made_of(bank_menu_text(known), entries, last));
    assert(menu_entries(all, all.len()) =~= entries + entry);
    assert(bank_menu_text(all) =~= entries + entry + next_last);
}

proof fn lemma_same_entries(a: Seq<BankConfig>, b: Seq<BankConfig>, n: nat)
    requires
        n <= a.len() <= b.len(),
        forall|i: int| 0 <= i < a.len() ==> #[trigger] a[i] == b[i],
    ensures
        menu_entries(a, n) == menu_entries(b, n),
    decreases n,
{
    if n > 0 {
        lemma_same_entries(a, b, (n - 1) as nat);
        assert(a[n - 1] == b[n - 1]);
    }
}

/// `row` shows the BLZ, the BIC, the first forty characters of the name and the address of a bank.
pub open spec fn shows_bank(row: Seq<char>, bank: BankConfig) -> bool {
    row == text::padded_right(bank.blz@, 12) + " "@ + text::padded_right(bank.bic@, 14) + " "@
        + text::padded_right(
        if bank.name@.len() <= 40 {
            bank.name@
        } else {
            bank.name@.take(40)
        },
        40,
    ) + " "@ + bank.url@ + "\n"@
}

/// What stands above a table of `n` banks.
pub open spec fn is_banks_heading(t: Seq<char>, n: nat) -> bool {
    exists|number: Seq<char>| #[trigger]
        text::reads_as_number(number, n as int) && t == "Known banks ("@ + number + " total):\n"@
            + (text::padded_right("BLZ"@, 12) + " "@ + text::padded_right("BIC"@, 14) + " "@
            + text::padded_right("Name"@, 40) + " "@ + "URL\n"@ + text::repeated('-', 100)
            + "\n"@)
}

/// The table of banks has a row for every known bank under a heading with their number: without
/// banks it is its heading, and one more bank adds its row behind those before it.
pub proof fn law_table_lists_every_bank(known: Seq<BankConfig>, bank: BankConfig)
    ensures
        is_banks_heading(bank_table_text(Seq::empty()), 0),
        exists|head: Seq<char>, next_head: Seq<char>, rows: Seq<char>, row: Seq<char>|
            #![trigger is_banks_heading(head, known.len()), is_banks_heading(next_head, known.len() + 1), shows_bank(row, bank), text::is_made_of(bank_table_text(known), head, rows)]
            {
                &&& is_banks_heading(head, known.len())
                &&& is_banks_heading(next_head, known.len() + 1)
                &&& shows_bank(row, bank)
                &&& text::is_made_of(bank_table_text(known), head, rows)
                &&& bank_table_text(known.push(bank)) == next_head + (rows + row)
            },
{
    let f = |b: BankConfig| bank_row(b);
    let n = known.len();
    let rows = text::lines_of(known, f);
    let row = bank_row(bank);
    lemma_banks_heading(0);
    lemma_banks_heading(n);
    lemma_banks_heading(n + 1);
    text::law_every_item_has_its_line(known, bank, Seq::empty(), f);
    assert(bank_table_text(Seq::empty()) =~= bank_heading(0));
    assert(shows_bank(row, bank));
    assert(text::is_made_of(bank_table_text(known), bank_heading(n), rows));
    assert(bank_table_text(known.push(bank)) == bank_heading(n + 1) + (rows + row));
}

proof fn lemma_banks_heading(n: nat)
    ensures
        is_banks_heading(bank_heading(n), n),
{
    text::law_numeral_is_read_back(n);
    let number = text::decimal(n);
    assert(text::reads_as_number(number, n as int));
    assert(bank_heading(n) =~= "Known banks ("@ + number + " total):\n"@ + (text::padded_right(
        "BLZ"@,
        12,
    ) + " "@ + text::padded_right("BIC"@, 14) + " "@ + text::padded_right("Name"@, 40) + " "@
        + "URL\n"@ + text::repeated('-', 100) + "\n"@));
}

/// A bank that the registry knows is served as the registry has it, and any other one by its own
/// configuration.
pub proof fn law_registered_banks_are_served(
    known: Seq<BankConfig>,
    blz: Seq<char>,
    config: BankConfig,
    i: int,
)
    ensures
        banks::sound_table(known) && 0 <= i < known.len() && known[i].blz@ == blz ==> served_bank(
            known,
            blz,
            config,
        ) == BankOps::Registered(known[i]),
        (forall|k: int| 0 <= k < known.len() ==> (#[trigger] known[k]).blz@ != blz) ==> served_bank(
            known,
            blz,
            config,
        ) == BankOps::Generic(config),
{
    if banks::sound_table(known) && 0 <= i < known.len() && known[i].blz@ == blz {
        banks::law_every_bank_is_found(known, i, blz);
    }
}

/// The answer to the menu picks the bank at its place, with all its data.
pub proof fn law_chosen_bank(
    known: Seq<BankConfig>,
    answer: Seq<char>,
    r: Option<ResolvedBank>,
)
    requires
        is_choice(known, answer, r),
    ensures
        r is Some <==> menu_choice(answer, known.len()) is Some,
        r matches Some(b) ==> {
            let i = menu_choice(answer, known.len())->0 as int;
            &&& has_data_of(b, known[i])
            &&& b.config == known[i]
        },
{
}

/// A bank that the user describes has the address and the BLZ that were entered, and no BIC.
pub proof fn law_described_bank(url: Seq<char>, blz: Seq<char>, b: ResolvedBank)
    requires
        b.is_bank(described_bank(url, blz)),
    ensures
        b.url@ == url,
        b.blz@ == blz,
        b.name@ == "Custom"@,
        b.config.url@ == url,
        b.config.blz@ == blz,
        b.config.bic@.len() == 0,
{
    reveal_strlit("");
}

} // verus!

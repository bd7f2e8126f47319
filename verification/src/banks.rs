//! Bank registry: known German banks with their FinTS endpoint URLs.
//!
//! Banks are identified solely by their BLZ (Bankleitzahl).
use vstd::prelude::*;

use crate::text;
use crate::types::{BankName, Bic, Blz, FinTSUrl};

verus! {

/// Configuration for a known bank.
#[derive(Debug)]
pub struct BankConfig {
    pub name: BankName,
    pub blz: Blz,
    pub bic: Bic,
    pub url: FinTSUrl,
}

impl Clone for BankConfig {
    fn clone(&self) -> (r: Self)
        ensures
            r == *self,
    {
        BankConfig {
            name: self.name.clone(),
            blz: self.blz.clone(),
            bic: self.bic.clone(),
            url: self.url.clone(),
        }
    }
}

/// The configuration with these properties.
pub open spec fn config_with(name: String, blz: String, bic: String, url: String) -> BankConfig {
    BankConfig { name: BankName(name), blz: Blz(blz), bic: Bic(bic), url: FinTSUrl(url) }
}

impl BankConfig {
    /// Create a new BankConfig.
    pub fn new(name: String, blz: String, bic: String, url: String) -> (r: BankConfig)
        ensures
            r == config_with(name, blz, bic, url),
    {
        BankConfig {
            name: BankName::new(name),
            blz: Blz::new(blz),
            bic: Bic::new(bic),
            url: FinTSUrl::new(url),
        }
    }

    /// Create a BankConfig from a row of a bank table: BLZ, BIC, name, URL.
    pub fn new_raw(blz: String, bic: String, name: String, url: String) -> (r: BankConfig)
        ensures
            r == config_with(name, blz, bic, url),
    {
        BankConfig {
            blz: Blz::new(blz),
            bic: Bic::new(bic),
            name: BankName::new(name),
            url: FinTSUrl::new(url),
        }
    }
}

// ---------------------------------------------------------------------------------------------
// The registry
// ---------------------------------------------------------------------------------------------

/// A row that a bank table may hold: a BLZ of eight digits, a name, an HTTP address.
pub open spec fn complete_entry(bank: BankConfig) -> bool {
    &&& bank.blz@.len() == 8
    &&& text::every(bank.blz@, |c: char| text::is_ascii_digit(c))
    &&& bank.name@.len() > 0
    &&& text::begins_with(bank.url@, "http"@)
}

/// A bank table: every row is complete, and no BLZ occurs twice.
pub open spec fn sound_table(banks: Seq<BankConfig>) -> bool {
    &&& forall|i: int| 0 <= i < banks.len() ==> complete_entry(#[trigger] banks[i])
    &&& forall|i: int, j: int|
        0 <= i < j < banks.len() ==> (#[trigger] banks[i]).blz@ != (#[trigger] banks[j]).blz@
}

/// The known banks with FinTS PIN/TAN access.
#[derive(Debug)]
pub struct BankRegistry {
    banks: Vec<BankConfig>,
}

fn is_complete(bank: &BankConfig) -> (r: bool)
    ensures
        r == complete_entry(*bank),
{
    let blz = text::chars_of(bank.blz.as_str());
    if blz.len() != 8 {
        return false;
    }
    let mut i: usize = 0;
    while i < blz.len()
        invariant
            i <= blz@.len(),
            blz@ == bank.blz@,
            forall|j: int| 0 <= j < i ==> text::is_ascii_digit(#[trigger] bank.blz@[j]),
        decreases blz@.len() - i,
    {
        if !('0' <= blz[i] && blz[i] <= '9') {
            assert(!text::is_ascii_digit(bank.blz@[i as int]));
            return false;
        }
        i += 1;
    }
    !bank.name.as_str().is_empty() && text::starts_with(bank.url.as_str(), "http")
}

fn index_of_blz(banks: &Vec<BankConfig>, to: usize, blz: &str) -> (r: Option<usize>)
    requires
        to <= banks@.len(),
    ensures
        r matches Some(i) ==> i < to && banks@[i as int].blz@ == blz@,
        r is None ==> forall|i: int| 0 <= i < to ==> (#[trigger] banks@[i]).blz@ != blz@,
{
    let mut i: usize = 0;
    while i < to
        invariant
            i <= to <= banks@.len(),
            forall|j: int| 0 <= j < i ==> (#[trigger] banks@[j]).blz@ != blz@,
        decreases to - i,
    {
        if text::same_text(banks[i].blz.as_str(), blz) {
            return Some(i);
        }
        i += 1;
    }
    None
}

impl BankRegistry {
    /// The banks, in the order of the table.
    pub closed spec fn view(&self) -> Seq<BankConfig> {
        self.banks@
    }

    #[verifier::type_invariant]
    spec fn sound(self) -> bool {
        sound_table(self.banks@)
    }

    /// The registry of a bank table, where the table is sound.
    pub fn from_table(table: Vec<BankConfig>) -> (r: Option<BankRegistry>)
        ensures
            r is Some <==> sound_table(table@),
            r matches Some(registry) ==> registry@ == table@,
    {
        let mut i: usize = 0;
        while i < table.len()
            invariant
                i <= table@.len(),
                sound_table(table@.take(i as int)),
            decreases table@.len() - i,
        {
            if !is_complete(&table[i]) {
                assert(!complete_entry(table@[i as int]));
                return None;
            }
            let earlier = index_of_blz(&table, i, table[i].blz.as_str());
            if let Some(j) = earlier {
                assert(table@[j as int].blz@ == table@[i as int].blz@);
                return None;
            }
            proof {
                let before = table@.take(i as int);
                let after = table@.take(i + 1);
                assert forall|k: int| 0 <= k < after.len() implies complete_entry(
                    #[trigger] after[k],
                ) by {
                    if k < i {
                        assert(complete_entry(before[k]));
                    }
                }
                assert forall|j: int, k: int| 0 <= j < k < after.len() implies (
                #[trigger] after[j]).blz@ != (#[trigger] after[k]).blz@ by {
                    if k < i {
                        assert(before[j].blz@ != before[k].blz@);
                    } else {
                        assert(table@[j].blz@ != table@[i as int].blz@);
                    }
                }
            }
            i += 1;
        }
        assert(table@.take(i as int) =~= table@);
        Some(BankRegistry { banks: table })
    }

    /// How many banks are known.
    pub fn len(&self) -> (r: usize)
        ensures
            r == self@.len(),
    {
        self.banks.len()
    }

    /// The bank at a place of the table.
    pub fn get(&self, i: usize) -> (r: &BankConfig)
        requires
            i < self@.len(),
        ensures
            *r == self@[i as int],
    {
        &self.banks[i]
    }
}

/// All known banks with FinTS PIN/TAN access, in the order of the registry.
pub fn all_banks(registry: &BankRegistry) -> (r: Vec<BankConfig>)
    ensures
        r@ == registry@,
        sound_table(r@),
{
    proof {
        use_type_invariant(registry);
    }
    let banks = registry.banks.clone();
    assert(banks@ =~= registry.banks@);
    banks
}

/// The bank of `banks` with the BLZ `blz`.
pub open spec fn bank_with_blz(banks: Seq<BankConfig>, blz: Seq<char>) -> Option<BankConfig> {
    if exists|i: int| 0 <= i < banks.len() && (#[trigger] banks[i]).blz@ == blz {
        Some(banks[choose|i: int| 0 <= i < banks.len() && (#[trigger] banks[i]).blz@ == blz])
    } else {
        None
    }
}

/// Look up a bank by its BLZ (bank code).
pub fn bank_by_blz(registry: &BankRegistry, blz: &str) -> (r: Option<BankConfig>)
    ensures
        r == bank_with_blz(registry@, blz@),
        r matches Some(bank) ==> bank.blz@ == blz@ && complete_entry(bank),
{
    proof {
        use_type_invariant(registry);
    }
    match index_of_blz(&registry.banks, registry.banks.len(), blz) {
        Some(i) => {
            assert(registry@[i as int].blz@ == blz@);
            Some(registry.banks[i].clone())
        },
        None => None,
    }
}

/// In a sound table every bank is found under its own BLZ, and under no other.
pub proof fn law_every_bank_is_found(banks: Seq<BankConfig>, i: int, blz: Seq<char>)
    requires
        sound_table(banks),
        0 <= i < banks.len(),
    ensures
        bank_with_blz(banks, blz) == Some(banks[i]) <==> banks[i].blz@ == blz,
{
    if banks[i].blz@ == blz {
        let k = choose|k: int| 0 <= k < banks.len() && (#[trigger] banks[k]).blz@ == blz;
        if k < i {
            assert(banks[k].blz@ != banks[i].blz@);
        } else if i < k {
            assert(banks[i].blz@ != banks[k].blz@);
        }
    }
}

/// What is not written as eight digits is the BLZ of no bank.
pub proof fn law_no_bank_without_eight_digits(banks: Seq<BankConfig>, blz: Seq<char>)
    requires
        sound_table(banks),
        blz.len() != 8 || !text::every(blz, |c: char| text::is_ascii_digit(c)),
    ensures
        bank_with_blz(banks, blz) is None,
{
    if exists|i: int| 0 <= i < banks.len() && (#[trigger] banks[i]).blz@ == blz {
        let i = choose|i: int| 0 <= i < banks.len() && (#[trigger] banks[i]).blz@ == blz;
        assert(complete_entry(banks[i]));
    }
}

/// A look-up gives a bank of the table with that very BLZ, and nothing exactly where no bank has it.
pub proof fn law_only_that_bank_is_found(banks: Seq<BankConfig>, blz: Seq<char>)
    ensures
        bank_with_blz(banks, blz) matches Some(bank) ==> banks.contains(bank) && bank.blz@ == blz,
        bank_with_blz(banks, blz) is None <==> forall|i: int|
            0 <= i < banks.len() ==> (#[trigger] banks[i]).blz@ != blz,
{
}

/// Every row of a sound table has a BLZ of eight digits, a name and an HTTP address, and no BLZ
/// occurs twice; a table with a row that has not, or with a BLZ twice, is not sound.
pub proof fn law_sound_tables(banks: Seq<BankConfig>, i: int, j: int)
    requires
        0 <= i < banks.len(),
        0 <= j < banks.len(),
    ensures
        sound_table(banks) ==> {
            &&& banks[i].blz@.len() == 8
            &&& forall|k: int| 0 <= k < 8 ==> '0' <= #[trigger] banks[i].blz@[k] <= '9'
            &&& banks[i].name@.len() > 0
            &&& banks[i].url@.len() >= 4
            &&& banks[i].url@.take(4) == "http"@
            &&& i != j ==> banks[i].blz@ != banks[j].blz@
        },
{
    reveal_strlit("http");
    if sound_table(banks) {
        assert(complete_entry(banks[i]));
        assert forall|k: int| 0 <= k < 8 implies '0' <= #[trigger] banks[i].blz@[k] <= '9' by {
            assert(text::is_ascii_digit(banks[i].blz@[k]));
        }
        if i < j {
            assert(banks[i].blz@ != banks[j].blz@);
        } else if j < i {
            assert(banks[j].blz@ != banks[i].blz@);
        }
    }
}

/// A table of complete rows with different BLZs is sound: one more such row keeps it sound.
pub proof fn law_table_grows(banks: Seq<BankConfig>, bank: BankConfig)
    requires
        sound_table(banks),
        bank.blz@.len() == 8,
        forall|k: int| 0 <= k < 8 ==> '0' <= #[trigger] bank.blz@[k] <= '9',
        bank.name@.len() > 0,
        bank.url@.len() >= 4,
        bank.url@.take(4) == "http"@,
        forall|i: int| 0 <= i < banks.len() ==> (#[trigger] banks[i]).blz@ != bank.blz@,
    ensures
        sound_table(Seq::empty()),
        sound_table(banks.push(bank)),
{
    reveal_strlit("http");
    let all = banks.push(bank);
    assert(complete_entry(bank));
    assert forall|i: int| 0 <= i < all.len() implies complete_entry(#[trigger] all[i]) by {
        if i < banks.len() {
            assert(complete_entry(banks[i]));
        }
    }
    assert forall|i: int, j: int| 0 <= i < j < all.len() implies (#[trigger] all[i]).blz@ != (
    #[trigger] all[j]).blz@ by {
        assert(all[i] == banks[i]);
        if j < banks.len() {
            assert(banks[i].blz@ != banks[j].blz@);
        }
    }
}

/// A configuration has the name, the BLZ, the BIC and the address that it is made of.
pub proof fn law_data_of_a_bank(name: String, blz: String, bic: String, url: String)
    ensures
        config_with(name, blz, bic, url).name@ == name@,
        config_with(name, blz, bic, url).blz@ == blz@,
        config_with(name, blz, bic, url).bic@ == bic@,
        config_with(name, blz, bic, url).url@ == url@,
{
}

} // verus!

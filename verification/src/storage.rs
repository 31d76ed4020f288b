//! The persistent state of the claims contract: the claim categories, the
//! ledger entry records, the contract state struct with its well-formedness
//! invariant, and the storage interface through which every balance, role
//! set and configuration singleton is read.

use vstd::prelude::*;

use crate::ledger;
use crate::ledger::Keyed;
use crate::payment::EsdtPayment;
use crate::views::EsdtClaim;
use crate::MAX_NUMBER_OF_PRIVILEGED_ADDRESSES;

verus! {

/// The closed set of claim categories, ordinally indexed 0 to 3.
#[derive(Clone, Copy, Debug, PartialEq, Eq, Structural)]
pub enum ClaimType {
    Reward,
    Airdrop,
    Allocation,
    Royalty,
}

/// Ordinal of a category, used as the second ledger key.
pub open spec fn claim_type_index(claim_type: ClaimType) -> u64 {
    match claim_type {
        ClaimType::Reward => 0,
        ClaimType::Airdrop => 1,
        ClaimType::Allocation => 2,
        ClaimType::Royalty => 3,
    }
}

/// Category of an ordinal; out-of-range values fall back to `Reward`.
pub open spec fn claim_type_from(value: u8) -> ClaimType {
    if value == 1 {
        ClaimType::Airdrop
    } else if value == 2 {
        ClaimType::Allocation
    } else if value == 3 {
        ClaimType::Royalty
    } else {
        ClaimType::Reward
    }
}

/// Number of values of a closed enumeration.
pub trait Len {
    /// The number of values, as a specification-level constant.
    spec fn len_spec() -> u8;

    /// The number of values.
    fn len() -> (r: u8)
        ensures
            r == Self::len_spec(),
    ;
}

impl Len for ClaimType {
    open spec fn len_spec() -> u8 {
        4
    }

    fn len() -> (r: u8) {
        4
    }
}

impl ClaimType {
    /// Executable form of [`claim_type_index`].
    pub fn index(&self) -> (r: u64)
        ensures
            r == claim_type_index(*self),
    {
        match self {
            ClaimType::Reward => 0,
            ClaimType::Airdrop => 1,
            ClaimType::Allocation => 2,
            ClaimType::Royalty => 3,
        }
    }
}

impl core::convert::From<u8> for ClaimType {
    fn from(claim_type: u8) -> (r: Self) {
        if claim_type == 1 {
            ClaimType::Airdrop
        } else if claim_type == 2 {
            ClaimType::Allocation
        } else if claim_type == 3 {
            ClaimType::Royalty
        } else {
            ClaimType::Reward
        }
    }
}

impl vstd::std_specs::convert::FromSpecImpl<u8> for ClaimType {
    open spec fn obeys_from_spec() -> bool {
        true
    }

    open spec fn from_spec(v: u8) -> Self {
        claim_type_from(v)
    }
}

/// One claim balance, filed under (address, category ordinal).
#[derive(Clone, Copy, Debug, PartialEq, Eq, Structural)]
pub struct ClaimEntry {
    pub address: u64,
    pub claim_type: ClaimType,
    pub amount: u128,
    pub date: u64,
}

impl Keyed for ClaimEntry {
    open spec fn key(&self) -> (u64, u64) {
        (self.address, claim_type_index(self.claim_type))
    }

    fn key_of(&self) -> (r: (u64, u64)) {
        (self.address, self.claim_type.index())
    }
}

/// One address's pending native-currency royalty balance.
#[derive(Clone, Copy, Debug, PartialEq, Eq, Structural)]
pub struct EgldClaimEntry {
    pub address: u64,
    pub amount: u128,
    pub date: u64,
}

impl Keyed for EgldClaimEntry {
    open spec fn key(&self) -> (u64, u64) {
        (self.address, 0)
    }

    fn key_of(&self) -> (r: (u64, u64)) {
        (self.address, 0)
    }
}

impl Keyed for EsdtClaim {
    open spec fn key(&self) -> (u64, u64) {
        (self.payment.token, 0)
    }

    fn key_of(&self) -> (r: (u64, u64)) {
        (self.payment.token, 0)
    }
}

/// One address's token royalty balances, in order of first credit.
#[derive(Clone, Debug, PartialEq, Eq)]
pub struct TokenClaimsEntry {
    pub address: u64,
    pub claims: Vec<EsdtClaim>,
}

impl Keyed for TokenClaimsEntry {
    open spec fn key(&self) -> (u64, u64) {
        (self.address, 0)
    }

    fn key_of(&self) -> (r: (u64, u64)) {
        (self.address, 0)
    }
}

/// Recorded creator of a data NFT, filed under (token, nonce).
#[derive(Clone, Copy, Debug, PartialEq, Eq, Structural)]
pub struct CreatorEntry {
    pub token: u64,
    pub nonce: u64,
    pub creator: u64,
}

impl Keyed for CreatorEntry {
    open spec fn key(&self) -> (u64, u64) {
        (self.token, self.nonce)
    }

    fn key_of(&self) -> (r: (u64, u64)) {
        (self.token, self.nonce)
    }
}

/// Claim balance of (address, category); absent entries count as zero.
pub open spec fn claim_amount(s: Seq<ClaimEntry>, address: u64, claim_type: ClaimType) -> u128 {
    match ledger::lookup(s, (address, claim_type_index(claim_type))) {
        Some(e) => e.amount,
        None => 0,
    }
}

/// Last-modified date of (address, category); absent entries count as zero.
pub open spec fn claim_date(s: Seq<ClaimEntry>, address: u64, claim_type: ClaimType) -> u64 {
    match ledger::lookup(s, (address, claim_type_index(claim_type))) {
        Some(e) => e.date,
        None => 0,
    }
}

/// Native royalty balance of an address; absent entries count as zero.
pub open spec fn egld_amount(s: Seq<EgldClaimEntry>, address: u64) -> u128 {
    match ledger::lookup(s, (address, 0)) {
        Some(e) => e.amount,
        None => 0,
    }
}

/// Last-modified date of an address's native royalty balance.
pub open spec fn egld_date(s: Seq<EgldClaimEntry>, address: u64) -> u64 {
    match ledger::lookup(s, (address, 0)) {
        Some(e) => e.date,
        None => 0,
    }
}

/// The token royalty list of an address; absent entries count as empty.
pub open spec fn token_claims_list(s: Seq<TokenClaimsEntry>, address: u64) -> Seq<EsdtClaim> {
    match ledger::lookup(s, (address, 0)) {
        Some(e) => e.claims@,
        None => Seq::empty(),
    }
}

/// Balance of one token within a token royalty list.
pub open spec fn esdt_claim_amount(list: Seq<EsdtClaim>, token: u64) -> u128 {
    match ledger::lookup(list, (token, 0)) {
        Some(e) => e.payment.amount,
        None => 0,
    }
}

/// Last-modified date of one token within a token royalty list.
pub open spec fn esdt_claim_date(list: Seq<EsdtClaim>, token: u64) -> u64 {
    match ledger::lookup(list, (token, 0)) {
        Some(e) => e.date,
        None => 0,
    }
}

/// Sum of one address's four category balances within a claims ledger.
pub open spec fn claim_total(s: Seq<ClaimEntry>, address: u64) -> int {
    claim_amount(s, address, ClaimType::Reward) + claim_amount(s, address, ClaimType::Airdrop)
        + claim_amount(s, address, ClaimType::Allocation) + claim_amount(
        s,
        address,
        ClaimType::Royalty,
    )
}

/// Reads one claim balance out of a raw claims ledger.
pub fn claim_amount_in(v: &Vec<ClaimEntry>, address: u64, claim_type: ClaimType) -> (r: u128)
    ensures
        r == claim_amount(v@, address, claim_type),
{
    match ledger::find_entry(v, (address, claim_type.index())) {
        Some(i) => v[i].amount,
        None => 0,
    }
}

/// Sum of one address's four category balances in a raw claims ledger.
pub fn claims_total_in(v: &Vec<ClaimEntry>, address: u64) -> (r: u128)
    requires
        claim_total(v@, address) <= u128::MAX,
    ensures
        r == claim_total(v@, address),
{
    let reward = claim_amount_in(v, address, ClaimType::Reward);
    let airdrop = claim_amount_in(v, address, ClaimType::Airdrop);
    let allocation = claim_amount_in(v, address, ClaimType::Allocation);
    let royalty = claim_amount_in(v, address, ClaimType::Royalty);
    reward + airdrop + allocation + royalty
}

/// Writes one claim balance and its date within a raw claims ledger;
/// every other cell keeps its value, and only the written address's
/// category total changes.
pub fn set_claim_in(v: &mut Vec<ClaimEntry>, address: u64, claim_type: ClaimType, amount: u128, date: u64)
    ensures
        forall|a: u64, c: ClaimType|
            claim_amount(final(v)@, a, c) == (if a == address && c == claim_type {
                amount
            } else {
                claim_amount(old(v)@, a, c)
            }),
        forall|a: u64, c: ClaimType|
            claim_date(final(v)@, a, c) == (if a == address && c == claim_type {
                date
            } else {
                claim_date(old(v)@, a, c)
            }),
        forall|a: u64| a != address ==> claim_total(final(v)@, a) == claim_total(old(v)@, a),
        claim_total(final(v)@, address) == claim_total(old(v)@, address) - claim_amount(
            old(v)@,
            address,
            claim_type,
        ) + amount,
{
    let entry = ClaimEntry { address, claim_type, amount, date };
    ledger::set_entry(v, entry);
    proof {
        assert forall|a: u64, c: ClaimType| !(a == address && c == claim_type) implies ledger::lookup(
            final(v)@,
            (a, claim_type_index(c)),
        ) == ledger::lookup(old(v)@, (a, claim_type_index(c))) by {
            assert(claim_type_index(c) == claim_type_index(claim_type) && a == address ==> c
                == claim_type && a == address);
            assert((a, claim_type_index(c)) != (address, claim_type_index(claim_type)));
        }
    }
}

/// Copies a raw claims ledger, as staging room for a bulk operation.
pub fn copy_claim_entries(v: &Vec<ClaimEntry>) -> (r: Vec<ClaimEntry>)
    ensures
        r@ == v@,
{
    let mut r: Vec<ClaimEntry> = Vec::new();
    let n = v.len();
    let mut i: usize = 0;
    while i < n
        invariant
            i <= n,
            n == v@.len(),
            r@ == v@.subrange(0, i as int),
        decreases n - i,
    {
        r.push(v[i]);
        proof {
            assert(r@ =~= v@.subrange(0, i as int + 1));
        }
        i = i + 1;
    }
    proof {
        assert(v@.subrange(0, n as int) =~= v@);
    }
    r
}

/// Recorded creator of (token, nonce), if any.
pub open spec fn creator_of(s: Seq<CreatorEntry>, token: u64, nonce: u64) -> Option<u64> {
    match ledger::lookup(s, (token, nonce)) {
        Some(e) => Some(e.creator),
        None => None,
    }
}

/// The whole persistent state of the claims contract, constructed once at
/// deployment and mutated only through its operations.
pub struct ClaimsContract {
    pub owner: u64,
    pub claim_token: Option<u64>,
    pub paused: bool,
    pub privileged_addresses: Vec<u64>,
    pub depositor_addresses: Vec<u64>,
    pub authorized_third_parties: Vec<u64>,
    pub factory_address: Option<u64>,
    pub claims: Vec<ClaimEntry>,
    pub egld_claims: Vec<EgldClaimEntry>,
    pub token_claims: Vec<TokenClaimsEntry>,
    pub data_nft_creators: Vec<CreatorEntry>,
}

/// Read access to the contract's persistent state, with one specification
/// function and one executable accessor per stored item.
pub trait StorageModule: Sized {
    /// The deploying owner identity.
    spec fn owner_spec(&self) -> u64;

    /// The designated claim token, once set.
    spec fn claim_token_spec(&self) -> Option<u64>;

    /// Whether public harvesting is paused.
    spec fn is_paused_spec(&self) -> bool;

    /// The treasury/tax collaborator's address, once set.
    spec fn factory_address_spec(&self) -> Option<u64>;

    /// The privileged operator addresses.
    spec fn privileged_addresses_spec(&self) -> Seq<u64>;

    /// The depositor addresses.
    spec fn depositor_addresses_spec(&self) -> Seq<u64>;

    /// The authorized third-party addresses.
    spec fn authorized_third_parties_spec(&self) -> Seq<u64>;

    /// Claim balance of (address, category).
    spec fn claim_spec(&self, address: u64, claim_type: ClaimType) -> u128;

    /// Last modification date of (address, category).
    spec fn claim_modify_date_spec(&self, address: u64, claim_type: ClaimType) -> u64;

    /// Pending native royalty balance of an address.
    spec fn third_party_egld_claim_spec(&self, address: u64) -> u128;

    /// Pending token royalty balances of an address, in order of first
    /// credit.
    spec fn third_party_token_claims_spec(&self, address: u64) -> Seq<EsdtClaim>;

    /// Last modification date of an address's royalty balance for a token
    /// (`Some`) or for the native currency (`None`).
    spec fn third_party_claim_modify_date_spec(&self, address: u64, token: Option<u64>) -> u64;

    /// Recorded creator of a data NFT.
    spec fn data_nft_creator_spec(&self, token: u64, nonce: u64) -> Option<u64>;

    /// Structural well-formedness of the state.
    spec fn wf(&self) -> bool;

    fn owner(&self) -> (r: u64)
        ensures
            r == self.owner_spec(),
    ;

    fn claim_token(&self) -> (r: Option<u64>)
        ensures
            r == self.claim_token_spec(),
    ;

    fn is_paused(&self) -> (r: bool)
        ensures
            r == self.is_paused_spec(),
    ;

    fn factory_address(&self) -> (r: Option<u64>)
        ensures
            r == self.factory_address_spec(),
    ;

    fn privileged_addresses(&self) -> (r: Vec<u64>)
        ensures
            r@ == self.privileged_addresses_spec(),
    ;

    fn depositor_addresses(&self) -> (r: Vec<u64>)
        ensures
            r@ == self.depositor_addresses_spec(),
    ;

    fn authorized_third_parties(&self) -> (r: Vec<u64>)
        ensures
            r@ == self.authorized_third_parties_spec(),
    ;

    fn claim(&self, address: u64, claim_type: ClaimType) -> (r: u128)
        ensures
            r == self.claim_spec(address, claim_type),
    ;

    fn claim_modify_date(&self, address: u64, claim_type: ClaimType) -> (r: u64)
        ensures
            r == self.claim_modify_date_spec(address, claim_type),
    ;

    fn third_party_egld_claim(&self, address: u64) -> (r: u128)
        ensures
            r == self.third_party_egld_claim_spec(address),
    ;

    fn third_party_token_claims(&self, address: u64) -> (r: Vec<EsdtClaim>)
        ensures
            r@ == self.third_party_token_claims_spec(address),
    ;

    fn third_party_claim_modify_date(&self, address: u64, token: Option<u64>) -> (r: u64)
        ensures
            r == self.third_party_claim_modify_date_spec(address, token),
    ;

    fn data_nft_creator(&self, token: u64, nonce: u64) -> (r: Option<u64>)
        ensures
            r == self.data_nft_creator_spec(token, nonce),
    ;
}

/// Copies a list of addresses.
fn copy_addr_list(v: &Vec<u64>) -> (r: Vec<u64>)
    ensures
        r@ == v@,
{
    let mut r: Vec<u64> = Vec::new();
    let n = v.len();
    let mut i: usize = 0;
    while i < n
        invariant
            i <= n,
            n == v@.len(),
            r@ == v@.subrange(0, i as int),
        decreases n - i,
    {
        r.push(v[i]);
        proof {
            assert(r@ =~= v@.subrange(0, i as int + 1));
        }
        i = i + 1;
    }
    proof {
        assert(v@.subrange(0, n as int) =~= v@);
    }
    r
}

/// Copies a list of token claims.
pub fn copy_esdt_claims(v: &Vec<EsdtClaim>) -> (r: Vec<EsdtClaim>)
    ensures
        r@ == v@,
{
    let mut r: Vec<EsdtClaim> = Vec::new();
    let n = v.len();
    let mut i: usize = 0;
    while i < n
        invariant
            i <= n,
            n == v@.len(),
            r@ == v@.subrange(0, i as int),
        decreases n - i,
    {
        r.push(v[i]);
        proof {
            assert(r@ =~= v@.subrange(0, i as int + 1));
        }
        i = i + 1;
    }
    proof {
        assert(v@.subrange(0, n as int) =~= v@);
    }
    r
}

impl StorageModule for ClaimsContract {
    open spec fn owner_spec(&self) -> u64 {
        self.owner
    }

    open spec fn claim_token_spec(&self) -> Option<u64> {
        self.claim_token
    }

    open spec fn is_paused_spec(&self) -> bool {
        self.paused
    }

    open spec fn factory_address_spec(&self) -> Option<u64> {
        self.factory_address
    }

    open spec fn privileged_addresses_spec(&self) -> Seq<u64> {
        self.privileged_addresses@
    }

    open spec fn depositor_addresses_spec(&self) -> Seq<u64> {
        self.depositor_addresses@
    }

    open spec fn authorized_third_parties_spec(&self) -> Seq<u64> {
        self.authorized_third_parties@
    }

    open spec fn claim_spec(&self, address: u64, claim_type: ClaimType) -> u128 {
        claim_amount(self.claims@, address, claim_type)
    }

    open spec fn claim_modify_date_spec(&self, address: u64, claim_type: ClaimType) -> u64 {
        claim_date(self.claims@, address, claim_type)
    }

    open spec fn third_party_egld_claim_spec(&self, address: u64) -> u128 {
        egld_amount(self.egld_claims@, address)
    }

    open spec fn third_party_token_claims_spec(&self, address: u64) -> Seq<EsdtClaim> {
        token_claims_list(self.token_claims@, address)
    }

    open spec fn third_party_claim_modify_date_spec(&self, address: u64, token: Option<u64>) -> u64 {
        match token {
            None => egld_date(self.egld_claims@, address),
            Some(t) => esdt_claim_date(token_claims_list(self.token_claims@, address), t),
        }
    }

    open spec fn data_nft_creator_spec(&self, token: u64, nonce: u64) -> Option<u64> {
        creator_of(self.data_nft_creators@, token, nonce)
    }

    open spec fn wf(&self) -> bool {
        &&& ledger::distinct(self.privileged_addresses@)
        &&& self.privileged_addresses@.len() <= MAX_NUMBER_OF_PRIVILEGED_ADDRESSES
        &&& !self.privileged_addresses@.contains(self.owner)
        &&& ledger::distinct(self.depositor_addresses@)
        &&& !self.depositor_addresses@.contains(self.owner)
        &&& ledger::distinct(self.authorized_third_parties@)
        &&& !self.authorized_third_parties@.contains(self.owner)
        &&& forall|a: u64| #[trigger] self.claim_total_spec(a) <= u128::MAX
    }

    fn owner(&self) -> (r: u64) {
        self.owner
    }

    fn claim_token(&self) -> (r: Option<u64>) {
        self.claim_token
    }

    fn is_paused(&self) -> (r: bool) {
        self.paused
    }

    fn factory_address(&self) -> (r: Option<u64>) {
        self.factory_address
    }

    fn privileged_addresses(&self) -> (r: Vec<u64>) {
        copy_addr_list(&self.privileged_addresses)
    }

    fn depositor_addresses(&self) -> (r: Vec<u64>) {
        copy_addr_list(&self.depositor_addresses)
    }

    fn authorized_third_parties(&self) -> (r: Vec<u64>) {
        copy_addr_list(&self.authorized_third_parties)
    }

    fn claim(&self, address: u64, claim_type: ClaimType) -> (r: u128) {
        match ledger::find_entry(&self.claims, (address, claim_type.index())) {
            Some(i) => self.claims[i].amount,
            None => 0,
        }
    }

    fn claim_modify_date(&self, address: u64, claim_type: ClaimType) -> (r: u64) {
        match ledger::find_entry(&self.claims, (address, claim_type.index())) {
            Some(i) => self.claims[i].date,
            None => 0,
        }
    }

    fn third_party_egld_claim(&self, address: u64) -> (r: u128) {
        match ledger::find_entry(&self.egld_claims, (address, 0)) {
            Some(i) => self.egld_claims[i].amount,
            None => 0,
        }
    }

    fn third_party_token_claims(&self, address: u64) -> (r: Vec<EsdtClaim>) {
        match ledger::find_entry(&self.token_claims, (address, 0)) {
            Some(i) => copy_esdt_claims(&self.token_claims[i].claims),
            None => Vec::new(),
        }
    }

    fn third_party_claim_modify_date(&self, address: u64, token: Option<u64>) -> (r: u64) {
        match token {
            None => {
                match ledger::find_entry(&self.egld_claims, (address, 0)) {
                    Some(i) => self.egld_claims[i].date,
                    None => 0,
                }
            },
            Some(t) => {
                match ledger::find_entry(&self.token_claims, (address, 0)) {
                    Some(i) => {
                        match ledger::find_entry(&self.token_claims[i].claims, (t, 0)) {
                            Some(j) => self.token_claims[i].claims[j].date,
                            None => 0,
                        }
                    },
                    None => 0,
                }
            },
        }
    }

    fn data_nft_creator(&self, token: u64, nonce: u64) -> (r: Option<u64>) {
        match ledger::find_entry(&self.data_nft_creators, (token, nonce)) {
            Some(i) => Some(self.data_nft_creators[i].creator),
            None => None,
        }
    }
}

impl ClaimsContract {
    /// Sum of one address's balances across every category, as a
    /// mathematical integer.
    pub open spec fn claim_total_spec(&self, address: u64) -> int {
        self.claim_spec(address, ClaimType::Reward) + self.claim_spec(address, ClaimType::Airdrop)
            + self.claim_spec(address, ClaimType::Allocation) + self.claim_spec(
            address,
            ClaimType::Royalty,
        )
    }

    /// Deploys a fresh contract: no balances, no roles, no configuration,
    /// and harvesting paused.
    pub fn init(owner: u64) -> (r: ClaimsContract)
        ensures
            r.wf(),
            r.owner_spec() == owner,
            r.claim_token_spec() is None,
            r.factory_address_spec() is None,
            r.is_paused_spec(),
            r.privileged_addresses_spec() == Seq::<u64>::empty(),
            r.depositor_addresses_spec() == Seq::<u64>::empty(),
            r.authorized_third_parties_spec() == Seq::<u64>::empty(),
            r.claims@ == Seq::<ClaimEntry>::empty(),
            r.egld_claims@ == Seq::<EgldClaimEntry>::empty(),
            r.token_claims@ == Seq::<TokenClaimsEntry>::empty(),
            r.data_nft_creators@ == Seq::<CreatorEntry>::empty(),
            forall|a: u64, c: ClaimType| r.claim_spec(a, c) == 0 && r.claim_modify_date_spec(a, c)
                == 0,
            forall|a: u64| r.third_party_egld_claim_spec(a) == 0
                && r.third_party_token_claims_spec(a) == Seq::<EsdtClaim>::empty(),
            forall|t: u64, n: u64| r.data_nft_creator_spec(t, n) is None,
    {
        ClaimsContract {
            owner,
            claim_token: None,
            paused: true,
            privileged_addresses: Vec::new(),
            depositor_addresses: Vec::new(),
            authorized_third_parties: Vec::new(),
            factory_address: None,
            claims: Vec::new(),
            egld_claims: Vec::new(),
            token_claims: Vec::new(),
            data_nft_creators: Vec::new(),
        }
    }

    /// Writes one claim balance and its date; every other ledger cell and
    /// every other field is untouched.
    pub fn set_claim(&mut self, address: u64, claim_type: ClaimType, amount: u128, date: u64)
        ensures
            final(self).claim_spec(address, claim_type) == amount,
            final(self).claim_modify_date_spec(address, claim_type) == date,
            forall|a: u64, c: ClaimType|
                !(a == address && c == claim_type) ==> final(self).claim_spec(a, c) == old(self).claim_spec(a, c) && final(self).claim_modify_date_spec(a, c) == old(self).claim_modify_date_spec(a, c),
            forall|a: u64|
                a != address ==> final(self).claim_total_spec(a) == old(self).claim_total_spec(a),
            final(self).owner == old(self).owner,
            final(self).claim_token == old(self).claim_token,
            final(self).paused == old(self).paused,
            final(self).factory_address == old(self).factory_address,
            final(self).privileged_addresses == old(self).privileged_addresses,
            final(self).depositor_addresses == old(self).depositor_addresses,
            final(self).authorized_third_parties == old(self).authorized_third_parties,
            final(self).egld_claims == old(self).egld_claims,
            final(self).token_claims == old(self).token_claims,
            final(self).data_nft_creators == old(self).data_nft_creators,
    {
        let entry = ClaimEntry { address, claim_type, amount, date };
        ledger::set_entry(&mut self.claims, entry);
        proof {
            assert forall|a: u64, c: ClaimType| !(a == address && c == claim_type) implies final(self).claim_spec(a, c) == old(self).claim_spec(a, c) && final(self).claim_modify_date_spec(a, c) == old(self).claim_modify_date_spec(a, c) by {
                assert(claim_type_index(c) == claim_type_index(claim_type) && a == address ==> c
                    == claim_type && a == address);
                assert((a, claim_type_index(c)) != (address, claim_type_index(claim_type)));
            }
        }
    }

    /// Writes one native royalty balance and its date.
    pub fn set_egld_claim(&mut self, address: u64, amount: u128, date: u64)
        ensures
            final(self).third_party_egld_claim_spec(address) == amount,
            final(self).third_party_claim_modify_date_spec(address, None) == date,
            forall|a: u64|
                a != address ==> final(self).third_party_egld_claim_spec(a) == old(self).third_party_egld_claim_spec(a) && final(self).third_party_claim_modify_date_spec(
                    a,
                    None,
                ) == old(self).third_party_claim_modify_date_spec(a, None),
            final(self).owner == old(self).owner,
            final(self).claim_token == old(self).claim_token,
            final(self).paused == old(self).paused,
            final(self).factory_address == old(self).factory_address,
            final(self).privileged_addresses == old(self).privileged_addresses,
            final(self).depositor_addresses == old(self).depositor_addresses,
            final(self).authorized_third_parties == old(self).authorized_third_parties,
            final(self).claims == old(self).claims,
            final(self).token_claims == old(self).token_claims,
            final(self).data_nft_creators == old(self).data_nft_creators,
    {
        let entry = EgldClaimEntry { address, amount, date };
        ledger::set_entry(&mut self.egld_claims, entry);
        proof {
            assert forall|a: u64| a != address implies final(self).third_party_egld_claim_spec(a)
                == old(self).third_party_egld_claim_spec(a) && final(self).third_party_claim_modify_date_spec(a, None) == old(self).third_party_claim_modify_date_spec(a, None) by {
                assert((a, 0u64) != (address, 0u64));
            }
        }
    }

    /// Replaces one address's token royalty list wholesale.
    pub fn set_token_claims(&mut self, address: u64, claims: Vec<EsdtClaim>)
        ensures
            final(self).third_party_token_claims_spec(address) == claims@,
            forall|a: u64|
                a != address ==> final(self).third_party_token_claims_spec(a) == old(self).third_party_token_claims_spec(a),
            final(self).owner == old(self).owner,
            final(self).claim_token == old(self).claim_token,
            final(self).paused == old(self).paused,
            final(self).factory_address == old(self).factory_address,
            final(self).privileged_addresses == old(self).privileged_addresses,
            final(self).depositor_addresses == old(self).depositor_addresses,
            final(self).authorized_third_parties == old(self).authorized_third_parties,
            final(self).claims == old(self).claims,
            final(self).egld_claims == old(self).egld_claims,
            final(self).data_nft_creators == old(self).data_nft_creators,
    {
        let entry = TokenClaimsEntry { address, claims };
        ledger::set_entry(&mut self.token_claims, entry);
        proof {
            assert forall|a: u64| a != address implies final(self).third_party_token_claims_spec(a)
                == old(self).third_party_token_claims_spec(a) by {
                assert((a, 0u64) != (address, 0u64));
            }
        }
    }

    /// Records the creator of one data NFT.
    pub fn set_data_nft_creator(&mut self, token: u64, nonce: u64, creator: u64)
        ensures
            final(self).data_nft_creator_spec(token, nonce) == Some(creator),
            forall|t: u64, n: u64|
                !(t == token && n == nonce) ==> final(self).data_nft_creator_spec(t, n) == old(self).data_nft_creator_spec(t, n),
            final(self).owner == old(self).owner,
            final(self).claim_token == old(self).claim_token,
            final(self).paused == old(self).paused,
            final(self).factory_address == old(self).factory_address,
            final(self).privileged_addresses == old(self).privileged_addresses,
            final(self).depositor_addresses == old(self).depositor_addresses,
            final(self).authorized_third_parties == old(self).authorized_third_parties,
            final(self).claims == old(self).claims,
            final(self).egld_claims == old(self).egld_claims,
            final(self).token_claims == old(self).token_claims,
    {
        let entry = CreatorEntry { token, nonce, creator };
        ledger::set_entry(&mut self.data_nft_creators, entry);
        proof {
            assert forall|t: u64, n: u64| !(t == token && n == nonce) implies final(self).data_nft_creator_spec(t, n) == old(self).data_nft_creator_spec(t, n) by {
                assert((t, n) != (token, nonce));
            }
        }
    }
}

} // verus!

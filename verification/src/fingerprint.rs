//! User fingerprints and loyalty: identifying a user by device and network,
//! the points and credits each verification brings, the tier the points
//! reach and the daily credits of each tier.
use vstd::prelude::*;
use crate::strmap::StrMap;
use crate::text;

verus! {

/// What the browser tells about the device.
pub struct DeviceFingerprint {
    pub user_agent: String,
    pub screen_resolution: String,
    pub timezone: String,
    pub language: String,
    pub platform: String,
    pub webgl_vendor: String,
    pub canvas_hash: String,
    pub audio_hash: String,
    pub font_list_hash: String,
}

/// What the network tells about the user.
pub struct IpFingerprint {
    pub ip_hash: String,
    pub country: String,
    pub asn: String,
    pub is_vpn: bool,
    pub is_tor: bool,
    pub risk_score: u32,
}

/// How the user interacts; the overall rhythm in thousandths (800 is 0.8).
pub struct ResponseFingerprint {
    pub typing_pattern: Vec<u32>,
    pub mouse_movement: String,
    pub click_pattern: Vec<u32>,
    pub scroll_behavior: String,
    pub interaction_rhythm_milli: u32,
}

/// How well a user is verified.
#[derive(Debug, Clone, Copy, PartialEq, Eq, Structural)]
pub enum VerificationLevel {
    Anonymous,
    Basic,
    Enhanced,
    Verified,
    Trusted,
    Premium,
}

/// A user's tier.
#[derive(Debug, Clone, Copy, PartialEq, Eq, Structural)]
pub enum UserTier {
    Free,
    Bronze,
    Silver,
    Gold,
    Platinum,
}

/// One verification of a user.
#[derive(Debug, Clone, Copy, PartialEq, Eq, Structural)]
pub struct VerificationStatus {
    pub verified: bool,
    pub verified_at: u64,
    pub points_awarded: u64,
    pub credits_awarded: u64,
    pub expires_at: Option<u64>,
}

/// The points each kind of verification brings.
#[derive(Debug, Clone, Copy, PartialEq, Eq, Structural)]
pub struct VerificationRules {
    pub email_points: u64,
    pub phone_points: u64,
    pub twitter_points: u64,
    pub github_points: u64,
    pub kyc_points: u64,
    pub daily_login_points: u64,
    pub referral_points: u64,
}

/// A fingerprinted user.
pub struct UserFingerprint {
    pub user_id: String,
    pub device_fingerprint: DeviceFingerprint,
    pub ip_fingerprint: IpFingerprint,
    pub response_fingerprint: ResponseFingerprint,
    pub verification_level: VerificationLevel,
    pub loyalty_points: u64,
    pub usage_credits: u64,
    pub tier: UserTier,
    pub verifications: StrMap<VerificationStatus>,
    pub jwt_loyalty_key: Option<String>,
}

/// The rules every manager uses.
pub open spec fn default_rules() -> VerificationRules {
    VerificationRules {
        email_points: 50,
        phone_points: 100,
        twitter_points: 75,
        github_points: 150,
        kyc_points: 500,
        daily_login_points: 10,
        referral_points: 200,
    }
}

/// Credits earned with points: one for every ten (the ratio 0.1).
pub open spec fn credits_for(points: u64) -> u64 {
    points / 10
}

/// The tier a number of points reaches: Bronze from 100, Silver from 500,
/// Gold from 2000, Platinum from 10000.
pub open spec fn tier_for(points: u64) -> UserTier {
    if points >= 10000 {
        UserTier::Platinum
    } else if points >= 2000 {
        UserTier::Gold
    } else if points >= 500 {
        UserTier::Silver
    } else if points >= 100 {
        UserTier::Bronze
    } else {
        UserTier::Free
    }
}

/// The daily credits of a tier.
pub open spec fn daily_limit(t: UserTier) -> u64 {
    match t {
        UserTier::Free => 100,
        UserTier::Bronze => 500,
        UserTier::Silver => 2000,
        UserTier::Gold => 10000,
        UserTier::Platinum => u64::MAX,
    }
}

/// What a user's account shows: points, credits, tier, level, the kinds
/// of verification, and whether loyalty cookies were accepted.
pub struct AccountView {
    pub points: u64,
    pub credits: u64,
    pub tier: UserTier,
    pub level: VerificationLevel,
    pub verified: Set<Seq<char>>,
    pub loyalty_key: Option<Seq<char>>,
}

/// The account of a user.
pub open spec fn account_of(u: UserFingerprint) -> AccountView {
    AccountView {
        points: u.loyalty_points,
        credits: u.usage_credits,
        tier: u.tier,
        level: u.verification_level,
        verified: u.verifications@.dom(),
        loyalty_key: match u.jwt_loyalty_key {
            Some(k) => Some(k@),
            None => None,
        },
    }
}

/// An account after earning `points` points and `credits` credits, its
/// tier then recomputed and its credits raised to the tier's daily limit.
pub open spec fn after_award(a: AccountView, points: u64, credits: u64) -> AccountView {
    let p = (a.points + points) as u64;
    let c = (a.credits + credits) as u64;
    let t = tier_for(p);
    AccountView {
        points: p,
        credits: if c < daily_limit(t) {
            daily_limit(t)
        } else {
            c
        },
        tier: t,
        ..a
    }
}

/// `DefaultHasher::new()` over the canvas hash, the audio hash and the IP
/// hash in turn (std's `Hash` for `str`), `finish`ed and printed in
/// lower-case hex. The hasher starts from fixed keys, so the value depends
/// on the three strings alone (for the algorithm of the std library linked
/// in); the algorithm is not restated, and the result is named.
pub uninterp spec fn fingerprint_hex(canvas: Seq<char>, audio: Seq<char>, ip: Seq<char>) -> Seq<char>;

#[verifier::external_body]
/// Hashes a fingerprint's three identifying strings; see `fingerprint_hex`.
fn fingerprint_hash(canvas: &str, audio: &str, ip: &str) -> (r: String)
    ensures
        r@ == fingerprint_hex(canvas@, audio@, ip@),
{
    let mut h = std::collections::hash_map::DefaultHasher::new();
    std::hash::Hash::hash(canvas, &mut h);
    std::hash::Hash::hash(audio, &mut h);
    std::hash::Hash::hash(ip, &mut h);
    format!("{:x}", std::hash::Hasher::finish(&h))
}

/// The fingerprinted users and the verification rules.
pub struct FingerprintManager {
    users: StrMap<UserFingerprint>,
    verification_rules: VerificationRules,
}

/// The id of a user: `user_` and the hash of the identifying strings.
pub open spec fn user_id_for(d: DeviceFingerprint, ip: IpFingerprint) -> Seq<char> {
    "user_"@ + fingerprint_hex(d.canvas_hash@, d.audio_hash@, ip.ip_hash@)
}

/// The tier of a number of points.
fn tier_of(points: u64) -> (t: UserTier)
    ensures
        t == tier_for(points),
{
    if points >= 10000 {
        UserTier::Platinum
    } else if points >= 2000 {
        UserTier::Gold
    } else if points >= 500 {
        UserTier::Silver
    } else if points >= 100 {
        UserTier::Bronze
    } else {
        UserTier::Free
    }
}

/// The daily credits of a tier.
fn limit_of(t: UserTier) -> (l: u64)
    ensures
        l == daily_limit(t),
{
    match t {
        UserTier::Free => 100,
        UserTier::Bronze => 500,
        UserTier::Silver => 2000,
        UserTier::Gold => 10000,
        UserTier::Platinum => u64::MAX,
    }
}

/// Points and credits can be added without overflow.
pub open spec fn award_fits(a: AccountView, points: u64, credits: u64) -> bool {
    a.points + points <= u64::MAX && a.credits + credits <= u64::MAX
}

/// Adds points and credits, then recomputes the tier.
fn award(u: &mut UserFingerprint, points: u64, credits: u64)
    requires
        award_fits(account_of(*old(u)), points, credits),
    ensures
        account_of(*final(u)) == after_award(account_of(*old(u)), points, credits),
        final(u).user_id == old(u).user_id,
        final(u).verifications == old(u).verifications,
{
    u.loyalty_points = u.loyalty_points + points;
    u.usage_credits = u.usage_credits + credits;
    u.tier = tier_of(u.loyalty_points);
    let limit = limit_of(u.tier);
    if u.usage_credits < limit {
        u.usage_credits = limit;
    }
}

impl FingerprintManager {
    /// The users' maps are well formed and the rules are the default ones.
    pub closed spec fn wf(&self) -> bool {
        &&& self.users.wf()
        &&& self.verification_rules == default_rules()
        &&& forall|k: Seq<char>| #[trigger] self.users@.contains_key(k) ==> self.users@[k].verifications.wf()
    }

    /// The accounts, by user id.
    pub closed spec fn accounts(&self) -> Map<Seq<char>, AccountView> {
        self.users@.map_values(|u: UserFingerprint| account_of(u))
    }

    /// No users; the default rules.
    pub fn new() -> (m: Self)
        ensures
            m.wf(),
            m.accounts() == Map::<Seq<char>, AccountView>::empty(),
    {
        let m = FingerprintManager {
            users: StrMap::new(),
            verification_rules: VerificationRules {
                email_points: 50,
                phone_points: 100,
                twitter_points: 75,
                github_points: 150,
                kyc_points: 500,
                daily_login_points: 10,
                referral_points: 200,
            },
        };
        assert(m.accounts() =~= Map::<Seq<char>, AccountView>::empty());
        m
    }

    /// The verification rules.
    pub fn rules(&self) -> (r: VerificationRules)
        requires
            self.wf(),
        ensures
            r == default_rules(),
    {
        self.verification_rules
    }

    /// Fingerprints a new user: anonymous, free, with 100 credits; returns
    /// its id (a user with the same fingerprint is replaced).
    pub fn create_fingerprint(&mut self, device: DeviceFingerprint, ip: IpFingerprint) -> (id: String)
        requires
            old(self).wf(),
        ensures
            final(self).wf(),
            id@ == user_id_for(device, ip),
            final(self).accounts() == old(self).accounts().insert(
                id@,
                AccountView {
                    points: 0,
                    credits: 100,
                    tier: UserTier::Free,
                    level: VerificationLevel::Anonymous,
                    verified: Set::empty(),
                    loyalty_key: None,
                },
            ),
    {
        let h = fingerprint_hash(device.canvas_hash.as_str(), device.audio_hash.as_str(), ip.ip_hash.as_str());
        let mut id = String::from_str("user_");
        id.append(h.as_str());
        let verifications: StrMap<VerificationStatus> = StrMap::new();
        proof {
            verifications.lemma_len();
            assert(verifications@.dom() =~= Set::<Seq<char>>::empty());
        }
        let u = UserFingerprint {
            user_id: id.clone(),
            device_fingerprint: device,
            ip_fingerprint: ip,
            response_fingerprint: ResponseFingerprint {
                typing_pattern: Vec::new(),
                mouse_movement: String::new(),
                click_pattern: Vec::new(),
                scroll_behavior: String::new(),
                interaction_rhythm_milli: 0,
            },
            verification_level: VerificationLevel::Anonymous,
            loyalty_points: 0,
            usage_credits: 100,
            tier: UserTier::Free,
            verifications,
            jwt_loyalty_key: None,
        };
        let ghost before = self.accounts();
        let ghost acc = account_of(u);
        self.users.insert(id.clone(), u);
        proof {
            assert(self.accounts() =~= before.insert(id@, acc));
            assert forall|k: Seq<char>| #[trigger] self.users@.contains_key(k) implies self.users@[k].verifications.wf() by {
                if k != id@ {
                    assert(old(self).users@.contains_key(k));
                }
            }
        }
        id
    }

    /// Records a verification of `kind` worth `points` at `now`, expiring
    /// after `valid_for` seconds if given, and awards its points and credits.
    fn verify(&mut self, user_id: &str, kind: &str, points: u64, now: u64, valid_for: Option<u64>, premium: bool) -> (r: Result<u64, String>)
        requires
            old(self).wf(),
            old(self).accounts().contains_key(user_id@) ==> award_fits(
                old(self).accounts()[user_id@],
                points,
                credits_for(points),
            ),
            valid_for is Some ==> now + valid_for->Some_0 <= u64::MAX,
        ensures
            final(self).wf(),
            !old(self).accounts().contains_key(user_id@) ==> r is Err && r->Err_0@ == "User not found"@
                && final(self).accounts() == old(self).accounts(),
            old(self).accounts().contains_key(user_id@) ==> r == Ok::<u64, String>(points) && final(self).accounts()
                == old(self).accounts().insert(
                user_id@,
                verified(old(self).accounts()[user_id@], kind@, points, premium),
            ),
    {
        let idx = match self.users.find(user_id) {
            Some(i) => i,
            None => {
                return Err(String::from_str("User not found"));
            },
        };
        proof {
            self.users.lemma_entry(idx as int);
        }
        let ghost pre = self.users;
        let ghost before = self.accounts();
        let status = VerificationStatus {
            verified: true,
            verified_at: now,
            points_awarded: points,
            credits_awarded: points / 10,
            expires_at: match valid_for {
                Some(d) => Some(now + d),
                None => None,
            },
        };
        let user = self.users.value_mut_at(idx);
        let ghost v0 = user.verifications@;
        user.verifications.insert(String::from_str(kind), status);
        if premium {
            user.verification_level = VerificationLevel::Premium;
        }
        award(user, points, points / 10);
        proof {
            pre.lemma_update_at(&self.users, idx as int, self.users.val_seq()[idx as int]);
            assert(self.users.val_seq()[idx as int].verifications@.dom() =~= v0.dom().insert(kind@));
            assert(self.accounts() =~= before.insert(
                user_id@,
                verified(before[user_id@], kind@, points, premium),
            ));
            assert forall|k: Seq<char>| #[trigger] self.users@.contains_key(k) implies self.users@[k].verifications.wf() by {
                if k != user_id@ {
                    assert(pre@.contains_key(k));
                }
            }
        }
        Ok(points)
    }

    /// Verifies the user's email at `now`: 50 points, 5 credits.
    pub fn verify_email(&mut self, user_id: &str, email: &str, now: u64) -> (r: Result<u64, String>)
        requires
            old(self).wf(),
            old(self).accounts().contains_key(user_id@) ==> award_fits(old(self).accounts()[user_id@], 50, 5),
        ensures
            final(self).wf(),
            !old(self).accounts().contains_key(user_id@) ==> r is Err && r->Err_0@ == "User not found"@
                && final(self).accounts() == old(self).accounts(),
            old(self).accounts().contains_key(user_id@) ==> r == Ok::<u64, String>(50) && final(self).accounts()
                == old(self).accounts().insert(user_id@, verified(old(self).accounts()[user_id@], "email"@, 50, false)),
    {
        let points = self.verification_rules.email_points;
        self.verify(user_id, "email", points, now, None, false)
    }

    /// Verifies the user's Twitter account at `now`, for 30 days: 75
    /// points, 7 credits.
    pub fn verify_twitter(&mut self, user_id: &str, twitter_handle: &str, now: u64) -> (r: Result<u64, String>)
        requires
            old(self).wf(),
            old(self).accounts().contains_key(user_id@) ==> award_fits(old(self).accounts()[user_id@], 75, 7),
            now + 2592000 <= u64::MAX,
        ensures
            final(self).wf(),
            !old(self).accounts().contains_key(user_id@) ==> r is Err && r->Err_0@ == "User not found"@
                && final(self).accounts() == old(self).accounts(),
            old(self).accounts().contains_key(user_id@) ==> r == Ok::<u64, String>(75) && final(self).accounts()
                == old(self).accounts().insert(user_id@, verified(old(self).accounts()[user_id@], "twitter"@, 75, false)),
    {
        let points = self.verification_rules.twitter_points;
        self.verify(user_id, "twitter", points, now, Some(86400 * 30), false)
    }

    /// Verifies the user's identity at `now`, for a year: 500 points, 50
    /// credits, and the premium level.
    pub fn verify_kyc(&mut self, user_id: &str, kyc_data: &str, now: u64) -> (r: Result<u64, String>)
        requires
            old(self).wf(),
            old(self).accounts().contains_key(user_id@) ==> award_fits(old(self).accounts()[user_id@], 500, 50),
            now + 31536000 <= u64::MAX,
        ensures
            final(self).wf(),
            !old(self).accounts().contains_key(user_id@) ==> r is Err && r->Err_0@ == "User not found"@
                && final(self).accounts() == old(self).accounts(),
            old(self).accounts().contains_key(user_id@) ==> r == Ok::<u64, String>(500) && final(self).accounts()
                == old(self).accounts().insert(user_id@, verified(old(self).accounts()[user_id@], "kyc"@, 500, true)),
    {
        let points = self.verification_rules.kyc_points;
        self.verify(user_id, "kyc", points, now, Some(86400 * 365), true)
    }

    /// The daily login bonus: 10 points, 1 credit.
    pub fn daily_login_bonus(&mut self, user_id: &str) -> (r: Result<u64, String>)
        requires
            old(self).wf(),
            old(self).accounts().contains_key(user_id@) ==> old(self).accounts()[user_id@].points + 10 <= u64::MAX
                && old(self).accounts()[user_id@].credits + 1 <= u64::MAX,
        ensures
            final(self).wf(),
            !old(self).accounts().contains_key(user_id@) ==> r is Err && r->Err_0@ == "User not found"@
                && final(self).accounts() == old(self).accounts(),
            old(self).accounts().contains_key(user_id@) ==> r == Ok::<u64, String>(10) && final(self).accounts()
                == old(self).accounts().insert(user_id@, bumped(old(self).accounts()[user_id@], 10, 1)),
    {
        let points = self.verification_rules.daily_login_points;
        self.add_plain(user_id, points, points / 10)
    }

    /// Adds points and credits, leaving the tier as it is.
    fn add_plain(&mut self, user_id: &str, points: u64, credits: u64) -> (r: Result<u64, String>)
        requires
            old(self).wf(),
            old(self).accounts().contains_key(user_id@) ==> old(self).accounts()[user_id@].points + points <= u64::MAX
                && old(self).accounts()[user_id@].credits + credits <= u64::MAX,
        ensures
            final(self).wf(),
            !old(self).accounts().contains_key(user_id@) ==> r is Err && r->Err_0@ == "User not found"@
                && final(self).accounts() == old(self).accounts(),
            old(self).accounts().contains_key(user_id@) ==> r == Ok::<u64, String>(points) && final(self).accounts()
                == old(self).accounts().insert(user_id@, bumped(old(self).accounts()[user_id@], points, credits)),
    {
        let idx = match self.users.find(user_id) {
            Some(i) => i,
            None => {
                return Err(String::from_str("User not found"));
            },
        };
        proof {
            self.users.lemma_entry(idx as int);
        }
        let ghost pre = self.users;
        let ghost before = self.accounts();
        let user = self.users.value_mut_at(idx);
        user.loyalty_points = user.loyalty_points + points;
        user.usage_credits = user.usage_credits + credits;
        proof {
            pre.lemma_update_at(&self.users, idx as int, self.users.val_seq()[idx as int]);
            assert(self.accounts() =~= before.insert(user_id@, bumped(before[user_id@], points, credits)));
            assert forall|k: Seq<char>| #[trigger] self.users@.contains_key(k) implies self.users@[k].verifications.wf() by {
                if k != user_id@ {
                    assert(pre@.contains_key(k));
                }
            }
        }
        Ok(points)
    }

    /// Accepts loyalty cookies at `now`: the key `zos_loyalty_<user>_<now>`
    /// and a bonus of 25 points and 25 credits.
    pub fn accept_loyalty_cookies(&mut self, user_id: &str, now: i64) -> (r: Result<String, String>)
        requires
            old(self).wf(),
            old(self).accounts().contains_key(user_id@) ==> old(self).accounts()[user_id@].points + 25 <= u64::MAX
                && old(self).accounts()[user_id@].credits + 25 <= u64::MAX,
        ensures
            final(self).wf(),
            !old(self).accounts().contains_key(user_id@) ==> r is Err && r->Err_0@ == "User not found"@
                && final(self).accounts() == old(self).accounts(),
            old(self).accounts().contains_key(user_id@) ==> r is Ok && r->Ok_0@ == loyalty_key(user_id@, now)
                && final(self).accounts() == old(self).accounts().insert(
                user_id@,
                AccountView { loyalty_key: Some(loyalty_key(user_id@, now)), ..bumped(old(self).accounts()[user_id@], 25, 25) },
            ),
    {
        let idx = match self.users.find(user_id) {
            Some(i) => i,
            None => {
                return Err(String::from_str("User not found"));
            },
        };
        proof {
            self.users.lemma_entry(idx as int);
        }
        let mut key = String::from_str("zos_loyalty_");
        key.append(user_id);
        key.append("_");
        let stamp = text::signed_decimal_string(now);
        key.append(stamp.as_str());
        let ghost pre = self.users;
        let ghost before = self.accounts();
        let user = self.users.value_mut_at(idx);
        user.jwt_loyalty_key = Some(key.clone());
        user.loyalty_points = user.loyalty_points + 25;
        user.usage_credits = user.usage_credits + 25;
        proof {
            pre.lemma_update_at(&self.users, idx as int, self.users.val_seq()[idx as int]);
            assert(self.accounts() =~= before.insert(
                user_id@,
                AccountView { loyalty_key: Some(loyalty_key(user_id@, now)), ..bumped(before[user_id@], 25, 25) },
            ));
            assert forall|k: Seq<char>| #[trigger] self.users@.contains_key(k) implies self.users@[k].verifications.wf() by {
                if k != user_id@ {
                    assert(pre@.contains_key(k));
                }
            }
        }
        Ok(key)
    }

    /// Keeps the latest interaction pattern; a steady rhythm (above 800
    /// thousandths) earns 5 points and 1 credit.
    pub fn update_response_fingerprint(&mut self, user_id: &str, response: ResponseFingerprint) -> (r: Result<(), String>)
        requires
            old(self).wf(),
            old(self).accounts().contains_key(user_id@) ==> old(self).accounts()[user_id@].points + 5 <= u64::MAX
                && old(self).accounts()[user_id@].credits + 1 <= u64::MAX,
        ensures
            final(self).wf(),
            !old(self).accounts().contains_key(user_id@) ==> r is Err && r->Err_0@ == "User not found"@
                && final(self).accounts() == old(self).accounts(),
            old(self).accounts().contains_key(user_id@) ==> r is Ok && final(self).accounts() == old(self).accounts().insert(
                user_id@,
                if response.interaction_rhythm_milli > 800 {
                    bumped(old(self).accounts()[user_id@], 5, 1)
                } else {
                    old(self).accounts()[user_id@]
                },
            ),
    {
        let idx = match self.users.find(user_id) {
            Some(i) => i,
            None => {
                return Err(String::from_str("User not found"));
            },
        };
        proof {
            self.users.lemma_entry(idx as int);
        }
        let steady = response.interaction_rhythm_milli > 800;
        let ghost pre = self.users;
        let ghost before = self.accounts();
        let user = self.users.value_mut_at(idx);
        user.response_fingerprint = response;
        if steady {
            user.loyalty_points = user.loyalty_points + 5;
            user.usage_credits = user.usage_credits + 1;
        }
        proof {
            pre.lemma_update_at(&self.users, idx as int, self.users.val_seq()[idx as int]);
            assert(self.accounts() =~= before.insert(
                user_id@,
                if steady {
                    bumped(before[user_id@], 5, 1)
                } else {
                    before[user_id@]
                },
            ));
            assert forall|k: Seq<char>| #[trigger] self.users@.contains_key(k) implies self.users@[k].verifications.wf() by {
                if k != user_id@ {
                    assert(pre@.contains_key(k));
                }
            }
        }
        Ok(())
    }

    /// Spends `amount` credits if the user has them; says whether it did.
    pub fn consume_credits(&mut self, user_id: &str, amount: u64) -> (r: Result<bool, String>)
        requires
            old(self).wf(),
        ensures
            final(self).wf(),
            !old(self).accounts().contains_key(user_id@) ==> r is Err && r->Err_0@ == "User not found"@
                && final(self).accounts() == old(self).accounts(),
            old(self).accounts().contains_key(user_id@) ==> {
                let a = old(self).accounts()[user_id@];
                if a.credits >= amount {
                    r == Ok::<bool, String>(true) && final(self).accounts() == old(self).accounts().insert(
                        user_id@,
                        AccountView { credits: (a.credits - amount) as u64, ..a },
                    )
                } else {
                    r == Ok::<bool, String>(false) && final(self).accounts() == old(self).accounts()
                }
            },
    {
        let idx = match self.users.find(user_id) {
            Some(i) => i,
            None => {
                return Err(String::from_str("User not found"));
            },
        };
        proof {
            self.users.lemma_entry(idx as int);
        }
        if self.users.value_at(idx).usage_credits < amount {
            return Ok(false);
        }
        let ghost pre = self.users;
        let ghost before = self.accounts();
        let user = self.users.value_mut_at(idx);
        user.usage_credits = user.usage_credits - amount;
        proof {
            pre.lemma_update_at(&self.users, idx as int, self.users.val_seq()[idx as int]);
            let a = before[user_id@];
            assert(self.accounts() =~= before.insert(user_id@, AccountView { credits: (a.credits - amount) as u64, ..a }));
            assert forall|k: Seq<char>| #[trigger] self.users@.contains_key(k) implies self.users@[k].verifications.wf() by {
                if k != user_id@ {
                    assert(pre@.contains_key(k));
                }
            }
        }
        Ok(true)
    }

    /// The user with the given id.
    pub fn get_user(&self, user_id: &str) -> (r: Option<&UserFingerprint>)
        requires
            self.wf(),
        ensures
            match r {
                Some(u) => self.accounts().contains_key(user_id@) && account_of(*u) == self.accounts()[user_id@],
                None => !self.accounts().contains_key(user_id@),
            },
    {
        self.users.get(user_id)
    }
}

/// An account after a verification of `kind` worth `points`: the kind is
/// recorded, the level set to premium if asked, and the points and their
/// credits awarded.
pub open spec fn verified(a: AccountView, kind: Seq<char>, points: u64, premium: bool) -> AccountView {
    let b = AccountView {
        verified: a.verified.insert(kind),
        level: if premium {
            VerificationLevel::Premium
        } else {
            a.level
        },
        ..a
    };
    after_award(b, points, credits_for(points))
}

/// An account with points and credits added and its tier unchanged.
pub open spec fn bumped(a: AccountView, points: u64, credits: u64) -> AccountView {
    AccountView { points: (a.points + points) as u64, credits: (a.credits + credits) as u64, ..a }
}

/// The loyalty key of a user at `now`.
pub open spec fn loyalty_key(user_id: Seq<char>, now: i64) -> Seq<char> {
    "zos_loyalty_"@ + user_id + "_"@ + text::signed_decimal(now as int)
}

} // verus!

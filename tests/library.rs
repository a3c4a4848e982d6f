use rooster::args::validate_arg_digits;
use rooster::commands::generate::callback_exec;
use rooster::envelope::Envelope;
use rooster::error::PasswordError;
use rooster::generate::{check_password_len, generate_password};
use rooster::store::{Password, PasswordStore};
use rooster::unlock::{
    ask_master_password, get_password_store_from_input, get_password_store_from_input_interactive,
    FirstDecode, UnlockEvent, UnlockState, UnlockStep,
};

fn sample_envelope() -> Envelope {
    Envelope {
        log2_n: 12,
        r: 8,
        p: 1,
        hmac: (0..32u8).collect(),
        iv: (100..116u8).collect(),
        ciphertext: vec![9, 8, 7, 6, 5],
    }
}

#[test]
fn digits_are_accepted() {
    assert!(validate_arg_digits("0123456789").is_ok());
    assert!(validate_arg_digits("").is_ok());
}

#[test]
fn non_digits_are_rejected() {
    assert_eq!(
        validate_arg_digits("12a"),
        Err(String::from("The value must be made of digits"))
    );
    assert!(validate_arg_digits("-1").is_err());
    assert!(validate_arg_digits("٣").is_err());
}

#[test]
fn envelope_layout_is_exact() {
    let bytes = sample_envelope().encode();
    assert_eq!(bytes.len(), 65 + 5);
    assert_eq!(&bytes[0..4], b"ROST");
    assert_eq!(bytes[4], 2);
    assert_eq!(&bytes[5..9], &[12, 0, 0, 0]);
    assert_eq!(&bytes[9..13], &[8, 0, 0, 0]);
    assert_eq!(&bytes[13..17], &[1, 0, 0, 0]);
    assert_eq!(bytes[17], 0);
    assert_eq!(bytes[48], 31);
    assert_eq!(bytes[49], 100);
    assert_eq!(&bytes[65..], &[9, 8, 7, 6, 5]);
}

#[test]
fn envelope_round_trip() {
    let e = sample_envelope();
    let back = Envelope::parse(&e.encode()).ok().unwrap();
    assert_eq!(back.log2_n, 12);
    assert_eq!(back.r, 8);
    assert_eq!(back.p, 1);
    assert_eq!(back.hmac, e.hmac);
    assert_eq!(back.iv, e.iv);
    assert_eq!(back.ciphertext, e.ciphertext);
}

#[test]
fn envelope_errors() {
    let good = sample_envelope().encode();
    assert_eq!(Envelope::parse(&vec![]).err(), Some(PasswordError::Corruption));
    let mut bad_magic = good.clone();
    bad_magic[0] ^= 1;
    assert_eq!(Envelope::parse(&bad_magic).err(), Some(PasswordError::Corruption));
    let mut v1 = good.clone();
    v1[4] = 1;
    assert_eq!(Envelope::parse(&v1).err(), Some(PasswordError::NeedUpgradeFromV1));
    let mut v3 = good.clone();
    v3[4] = 3;
    assert_eq!(Envelope::parse(&v3).err(), Some(PasswordError::OutdatedBinary));
    let mut v0 = good.clone();
    v0[4] = 0;
    assert_eq!(Envelope::parse(&v0).err(), Some(PasswordError::Corruption));
    let short = good[0..64].to_vec();
    assert_eq!(Envelope::parse(&short).err(), Some(PasswordError::Corruption));
    let mut weak = good.clone();
    weak[5] = 21;
    assert_eq!(Envelope::parse(&weak).err(), Some(PasswordError::Corruption));
}

#[test]
fn header_bit_flip_never_reads_as_same_envelope() {
    let good = sample_envelope().encode();
    for i in 0..good.len() {
        let mut t = good.clone();
        t[i] ^= 0x01;
        match Envelope::parse(&t) {
            Err(_) => {}
            Ok(e) => assert_ne!(e.encode(), good),
        }
    }
}

fn store_with_two() -> PasswordStore {
    let mut s = PasswordStore::new();
    assert!(s
        .add_password(Password::new("First Website", "first@example.com", String::from("abcd"), 10))
        .is_ok());
    assert!(s
        .add_password(Password::new("Second Website", "second@example.com", String::from("efgh"), 20))
        .is_ok());
    s
}

#[test]
fn add_and_get_ignore_case() {
    let s = store_with_two();
    assert_eq!(s.len(), 2);
    assert!(s.has_password("first website"));
    assert!(s.has_password("FIRST WEBSITE"));
    let p = s.get_password("SECOND website").ok().unwrap();
    assert_eq!(p.password, "efgh");
    assert_eq!(p.username, "second@example.com");
    assert_eq!(p.created_at, 20);
    assert_eq!(p.updated_at, 20);
    assert_eq!(s.get_password("third").err(), Some(PasswordError::AppNotFound));
}

#[test]
fn add_rejects_duplicate_name() {
    let mut s = store_with_two();
    let r = s.add_password(Password::new("first WEBSITE", "x", String::from("y"), 30));
    assert_eq!(r, Err(PasswordError::AppExists));
    assert_eq!(s.len(), 2);
    assert_eq!(s.entry(0).name, "First Website");
}

#[test]
fn rename_rules() {
    let mut s = store_with_two();
    assert_eq!(s.rename("nope", "x", 40), Err(PasswordError::AppNotFound));
    assert_eq!(s.rename("first website", "SECOND WEBSITE", 40), Err(PasswordError::AppExists));
    assert_eq!(s.rename("first website", "FIRST Website", 40), Ok(()));
    assert_eq!(s.entry(0).name, "FIRST Website");
    assert_eq!(s.entry(0).updated_at, 40);
    assert_eq!(s.entry(0).created_at, 10);
    assert_eq!(s.rename("first website", "Third", 5), Ok(()));
    assert_eq!(s.entry(0).name, "Third");
    assert_eq!(s.entry(0).updated_at, 10);
    assert!(!s.has_password("first website"));
}

#[test]
fn change_and_delete() {
    let mut s = store_with_two();
    assert_eq!(s.change_password("second website", String::from("zzzz"), 50), Ok(()));
    assert_eq!(s.entry(1).password, "zzzz");
    assert_eq!(s.entry(1).updated_at, 50);
    assert_eq!(s.change_username("Second Website", "me", 60), Ok(()));
    assert_eq!(s.entry(1).username, "me");
    assert_eq!(s.change_username("none", "me", 60), Err(PasswordError::AppNotFound));
    assert_eq!(s.change_password("none", String::from("q"), 60), Err(PasswordError::AppNotFound));
    let removed = s.delete_password("FIRST website").ok().unwrap();
    assert_eq!(removed.password, "abcd");
    assert_eq!(s.len(), 1);
    assert_eq!(s.entry(0).name, "Second Website");
    assert_eq!(s.delete_password("first website").err(), Some(PasswordError::AppNotFound));
}

#[test]
fn password_length_bounds() {
    assert_eq!(check_password_len(3), Err(PasswordError::InvalidLength));
    assert_eq!(check_password_len(4), Ok(4));
    assert_eq!(check_password_len(128), Ok(128));
    assert_eq!(check_password_len(129), Err(PasswordError::InvalidLength));
}

#[test]
fn generator_maps_bytes_exactly() {
    // 0 -> 'a', 26 -> 'A', 52 -> '0', 250 dropped, 61 -> '9'
    let r = generate_password(true, 4, &vec![0, 26, 250, 52, 61]);
    assert_eq!(r, Ok(Some(String::from("aA09"))));
    // full alphabet: 0 -> '!', 93 -> '~', 200 dropped
    let r = generate_password(false, 5, &vec![0, 200, 93, 64, 32, 15]);
    assert_eq!(r, Ok(Some(String::from("!~aA0"))));
}

#[test]
fn generator_needs_all_classes_and_enough_bytes() {
    assert_eq!(generate_password(true, 4, &vec![0, 1, 2, 3]), Ok(None));
    assert_eq!(generate_password(true, 4, &vec![0, 26, 52]), Ok(None));
    assert_eq!(generate_password(true, 2, &vec![0, 26, 52]), Err(PasswordError::InvalidLength));
}

#[test]
fn generator_length_and_alphabet() {
    let random: Vec<u8> = (0..600u32).map(|i| (i * 37 % 256) as u8).collect();
    let pw = generate_password(true, 32, &random).ok().unwrap().unwrap();
    assert_eq!(pw.chars().count(), 32);
    assert!(pw.chars().all(|c| c.is_ascii_alphanumeric()));
    assert!(pw.chars().any(|c| c.is_ascii_lowercase()));
    assert!(pw.chars().any(|c| c.is_ascii_uppercase()));
    assert!(pw.chars().any(|c| c.is_ascii_digit()));
    let pw = generate_password(false, 128, &random).ok().unwrap().unwrap();
    assert_eq!(pw.chars().count(), 128);
    assert!(pw.chars().all(|c| c.is_ascii_graphic()));
}

#[test]
fn generate_command_adds_entry() {
    let mut s = store_with_two();
    let random: Vec<u8> = (0..256u32).map(|i| (i * 37 % 256) as u8).collect();
    let r = callback_exec(&mut s, "App", "user", true, 32, &random, 70);
    let pw = r.ok().unwrap().unwrap();
    assert_eq!(pw.chars().count(), 32);
    assert_eq!(s.len(), 3);
    assert_eq!(s.entry(2).password, pw);
    assert_eq!(s.entry(2).name, "App");
    assert_eq!(s.entry(2).created_at, 70);
    let again = callback_exec(&mut s, "app", "user", true, 32, &random, 80);
    assert_eq!(again, Err(PasswordError::AppExists));
    let bad = callback_exec(&mut s, "Other", "user", true, 200, &random, 80);
    assert_eq!(bad, Err(PasswordError::InvalidLength));
    let short = callback_exec(&mut s, "Other", "user", true, 32, &vec![1, 2], 80);
    assert_eq!(short, Ok(None));
    assert_eq!(s.len(), 3);
}

#[test]
fn wrong_password_then_success() {
    let s = UnlockState::new(3);
    assert_eq!(ask_master_password(&s), Ok(false));
    let step = get_password_store_from_input_interactive(
        &s,
        &UnlockEvent::Decoded(Err(PasswordError::WrongMasterPassword)),
    );
    let s2 = match step {
        UnlockStep::Continue(n) => n,
        other => panic!("unexpected {:?}", other),
    };
    assert_eq!(s2, UnlockState { retries: 2, force_upgrade: false, retry: true });
    assert_eq!(ask_master_password(&s2), Ok(true));
    assert_eq!(
        get_password_store_from_input_interactive(&s2, &UnlockEvent::Decoded(Ok(()))),
        UnlockStep::Opened
    );
}

#[test]
fn three_wrong_passwords_report_corruption() {
    let mut s = UnlockState::new(3);
    for _ in 0..3 {
        assert!(ask_master_password(&s).is_ok());
        match get_password_store_from_input_interactive(
            &s,
            &UnlockEvent::Decoded(Err(PasswordError::WrongMasterPassword)),
        ) {
            UnlockStep::Continue(n) => s = n,
            other => panic!("unexpected {:?}", other),
        }
    }
    assert_eq!(ask_master_password(&s), Err(PasswordError::CorruptionLikely));
}

#[test]
fn terminal_errors_stop() {
    let s = UnlockState::new(3);
    for e in [PasswordError::Corruption, PasswordError::OutdatedBinary, PasswordError::Io] {
        assert_eq!(
            get_password_store_from_input_interactive(&s, &UnlockEvent::Decoded(Err(e))),
            UnlockStep::Failed(e)
        );
    }
}

#[test]
fn upgrade_consent() {
    let s = UnlockState::new(3);
    assert_eq!(
        get_password_store_from_input_interactive(
            &s,
            &UnlockEvent::Decoded(Err(PasswordError::NeedUpgradeFromV1))
        ),
        UnlockStep::AskUpgrade
    );
    let ans = |l: &str| get_password_store_from_input_interactive(&s, &UnlockEvent::UpgradeAnswer(String::from(l)));
    assert_eq!(ans("no"), UnlockStep::Failed(PasswordError::NoUpgrade));
    assert_eq!(ans("maybe"), UnlockStep::AskUpgradeAgain);
    assert_eq!(ans(""), UnlockStep::AskUpgradeAgain);
    assert_eq!(
        ans("yes"),
        UnlockStep::Continue(UnlockState { retries: 3, force_upgrade: true, retry: false })
    );
}

#[test]
fn first_decode_decisions() {
    assert_eq!(get_password_store_from_input(Ok(()), false), FirstDecode::Opened);
    assert_eq!(
        get_password_store_from_input(Err(PasswordError::NeedUpgradeFromV1), false),
        FirstDecode::Failed(PasswordError::NeedUpgradeFromV1)
    );
    assert_eq!(
        get_password_store_from_input(Err(PasswordError::NeedUpgradeFromV1), true),
        FirstDecode::Upgrade
    );
    assert_eq!(
        get_password_store_from_input(Err(PasswordError::WrongMasterPassword), true),
        FirstDecode::Failed(PasswordError::WrongMasterPassword)
    );
}

#[test]
fn seal_round_trip() {
    let plaintext = b"{\"passwords\":[]}".to_vec();
    let file = rooster::seal::encrypt(&plaintext, "xxxx", 4, 8, 1).ok().unwrap();
    assert_eq!(&file[0..4], b"ROST");
    assert_eq!(file.len(), 65 + plaintext.len());
    assert_ne!(&file[65..], &plaintext[..]);
    assert_eq!(rooster::seal::decrypt(&file, "xxxx"), Ok(plaintext));
}

#[test]
fn seal_with_fixed_iv_is_deterministic() {
    let plaintext = b"secret data".to_vec();
    let iv: Vec<u8> = (0..16u8).collect();
    let a = rooster::seal::encrypt_with_iv(&plaintext, "pw", 4, 8, 1, iv.clone());
    let b = rooster::seal::encrypt_with_iv(&plaintext, "pw", 4, 8, 1, iv.clone());
    assert_eq!(a, b);
    assert_eq!(&a[49..65], &iv[..]);
    let other = rooster::seal::encrypt_with_iv(&plaintext, "pw2", 4, 8, 1, iv);
    assert_ne!(a[17..], other[17..]);
}

#[test]
fn fresh_iv_each_time() {
    let plaintext = b"same store".to_vec();
    let a = rooster::seal::encrypt(&plaintext, "m", 4, 8, 1).ok().unwrap();
    let b = rooster::seal::encrypt(&plaintext, "m", 4, 8, 1).ok().unwrap();
    assert_ne!(a[49..65], b[49..65]);
    assert_ne!(a[17..49], b[17..49]);
    assert_ne!(a[65..], b[65..]);
}

#[test]
fn wrong_master_password_is_rejected() {
    let file = rooster::seal::encrypt(&b"data".to_vec(), "correct", 4, 8, 1).ok().unwrap();
    assert_eq!(
        rooster::seal::decrypt(&file, "wrong"),
        Err(PasswordError::WrongMasterPassword)
    );
}

#[test]
fn tampering_is_detected() {
    let file = rooster::seal::encrypt(&b"some plaintext".to_vec(), "m", 4, 8, 1).ok().unwrap();
    for i in 0..file.len() {
        for bit in [0x01u8, 0x80u8] {
            let mut t = file.clone();
            t[i] ^= bit;
            assert!(rooster::seal::decrypt(&t, "m").is_err(), "byte {} bit {}", i, bit);
        }
    }
    let mut last = file.clone();
    let n = last.len() - 1;
    last[n] ^= 0xff;
    assert_eq!(
        rooster::seal::decrypt(&last, "m"),
        Err(PasswordError::WrongMasterPassword)
    );
}

#[test]
fn constant_time_comparison() {
    assert!(rooster::seal::constant_time_eq(&vec![1, 2, 3], &vec![1, 2, 3]));
    assert!(!rooster::seal::constant_time_eq(&vec![1, 2, 3], &vec![1, 2, 4]));
    assert!(rooster::seal::constant_time_eq(&vec![], &vec![]));
}

#[test]
fn fuzzy_search_finds_both_websites() {
    let s = store_with_two();
    assert_eq!(s.search_fuzzy("wbst"), vec![0, 1]);
    assert_eq!(s.search_fuzzy("WBST"), vec![0, 1]);
    assert_eq!(s.search_fuzzy("sec"), vec![1]);
    assert_eq!(s.search_fuzzy("xyz"), Vec::<usize>::new());
}

#[test]
fn fuzzy_search_ranks_exact_and_contiguous_first() {
    let mut s = PasswordStore::new();
    for (i, name) in ["gxixt", "github", "git", "Gitlab"].iter().enumerate() {
        assert!(s
            .add_password(Password::new(name, "u", String::from("p"), i as u64))
            .is_ok());
    }
    // "git" exact ranks first; contiguous "git" in github/Gitlab before scattered gxixt
    assert_eq!(s.search_fuzzy("git"), vec![2, 1, 3, 0]);
    assert_eq!(s.search_fuzzy("git"), s.search_fuzzy("git"));
}

#[test]
fn names_compare_ignoring_case_beyond_ascii() {
    let mut s = PasswordStore::new();
    assert!(s.add_password(Password::new("Émile", "u", String::from("p"), 1)).is_ok());
    assert!(s.has_password("éMILE"));
    assert_eq!(
        s.add_password(Password::new("ÉMILE", "v", String::from("q"), 2)),
        Err(PasswordError::AppExists)
    );
}

#[test]
fn scrypt_params_rules() {
    let mut s = PasswordStore::new();
    assert_eq!(s.scrypt_params(), (12, 8, 1));
    assert_eq!(s.set_scrypt_params(10, 8, 1, false), Err(PasswordError::WeakParams));
    assert_eq!(s.scrypt_params(), (12, 8, 1));
    assert_eq!(s.set_scrypt_params(10, 8, 1, true), Ok(()));
    assert_eq!(s.scrypt_params(), (10, 8, 1));
    assert_eq!(s.set_scrypt_params(21, 8, 1, true), Err(PasswordError::WeakParams));
    assert_eq!(s.set_scrypt_params(16, 1, 1, true), Err(PasswordError::WeakParams));
    assert_eq!(s.set_scrypt_params(14, 16, 2, false), Ok(()));
    assert_eq!(s.scrypt_params(), (14, 16, 2));
}

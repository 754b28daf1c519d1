use attest::dcap::secure_boot::{
    db, dbx, kek, pk, secure_boot_hash, secureboot_off, EFI_GLOBAL_VARIABLE_GUID,
    EMPTY_DER_SIG_LIST,
};

fn h48(s: &str) -> [u8; 48] {
    hex::decode(s).unwrap().try_into().unwrap()
}

#[test]
fn driver_config_event_digests() {
    assert_eq!(
        secureboot_off(),
        h48("cfa4e2c606f572627bf06d5669cc2ab1128358d27b45bc63ee9ea56ec109cfafb7194006f847a6a74b5eaed6b73332ec"),
    );
    assert_eq!(
        pk(),
        h48("905f6243baf0d7c63cd672f89b16e15f99597e8d0392955e685172d447100123f7c490d178543922faddf896625dabab"),
    );
    assert_eq!(
        kek(),
        h48("be013b0d9188e72b870f598899c35864d6b25f029a7b5f21a037bacf61ca3646207af2bc714d471407c9939317763c4a"),
    );
    assert_eq!(
        db(),
        h48("723ad4d64f430bf6d325ab9d6c29147993ded5630002e42e13df696ebc680c4bc14c392d2e113e141154e21723f890f6"),
    );
    assert_eq!(
        dbx(),
        h48("c61bae1a3f7b7e6cc3b9b03f630b77292ebd232ae60e0e1916f980955ec38459529574b49f1898c367eaf6d8a62311f5"),
    );
}

#[test]
fn variable_digest_covers_name_and_data() {
    let a = secure_boot_hash(&EFI_GLOBAL_VARIABLE_GUID, "PK", &EMPTY_DER_SIG_LIST);
    let b = secure_boot_hash(&EFI_GLOBAL_VARIABLE_GUID, "KEK", &EMPTY_DER_SIG_LIST);
    let c = secure_boot_hash(&EFI_GLOBAL_VARIABLE_GUID, "PK", &[0]);
    assert_eq!(a, pk());
    assert_ne!(a, b);
    assert_ne!(a, c);
}

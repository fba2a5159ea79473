//! Behavior of the hosting-shell support: identifiers and their text form,
//! factory decisions, format negotiation, and registration plans.

use tts_engine::comserver::{
    ascii_to_utf16, uninstall_command_line, ComClassInfo, ComServerPath, ComThreadingModel,
};
use tts_engine::engine::{
    modern_api_available, piper_engine_clsid, piper_engine_format, piper_multilingual_voice,
    piper_native_format, standard_engine_clsid, standard_engine_format,
    standard_multilingual_voice,
};
use tts_engine::factory::{
    base_unknown_iid, can_unload_status, class_factory_iid, class_object_decision,
    create_instance_decision, ComStatus, FactoryConfig, RequestedInterface,
};
use tts_engine::format::{
    decode_speak_format, decode_target_format, format_reply, get_output_format, text_format_id,
    wants_punctuation, wave_format_id, SpeechFormat,
};
use tts_engine::guid::{format_guid, guid_eq, Guid};
use tts_engine::refcount::ModuleRefCount;
use tts_engine::registry::{join_key_path, ParentRegKey, RegRoot, RegistrationError};

fn sample_config() -> FactoryConfig {
    FactoryConfig {
        class_id: piper_engine_clsid(),
        tts_engine_iid: Guid::from_u128(0xBE9EF4F1_8B77_4F0B_9E3E_2A30C2FE8C11),
        object_with_token_iid: Guid::from_u128(0x14056589_E16C_11D2_BB90_00C04F8EE6C0),
    }
}

#[test]
fn guid_from_u128_fields() {
    let g = Guid::from_u128(0x9876903A_2109_4BCC_A64B_242880E12AD2);
    assert_eq!(g.data1, 0x9876903A);
    assert_eq!(g.data2, 0x2109);
    assert_eq!(g.data3, 0x4BCC);
    assert_eq!(g.data4, [0xA6, 0x4B, 0x24, 0x28, 0x80, 0xE1, 0x2A, 0xD2]);
    assert!(guid_eq(&g, &piper_engine_clsid()));
}

#[test]
fn guid_formats_as_uppercase_hex_groups() {
    let g = Guid::from_u128(0x9876903A_2109_4BCC_A64B_242880E12AD2);
    assert_eq!(format_guid(&g), "9876903A-2109-4BCC-A64B-242880E12AD2");
    let zero = Guid::from_u128(0);
    assert_eq!(format_guid(&zero), "00000000-0000-0000-0000-000000000000");
}

#[test]
fn create_instance_rejections() {
    let cfg = sample_config();
    let iid = base_unknown_iid();
    assert_eq!(
        create_instance_decision(&cfg, false, Some(&iid), false),
        Err(ComStatus::PointerRequired)
    );
    assert_eq!(
        create_instance_decision(&cfg, true, None, false),
        Err(ComStatus::InvalidArgument)
    );
    assert_eq!(
        create_instance_decision(&cfg, true, Some(&iid), true),
        Err(ComStatus::NoAggregation)
    );
    let other = Guid::from_u128(0xDEAD);
    assert_eq!(
        create_instance_decision(&cfg, true, Some(&other), false),
        Err(ComStatus::NoInterface)
    );
}

#[test]
fn create_instance_supported_interfaces() {
    let cfg = sample_config();
    assert_eq!(
        create_instance_decision(&cfg, true, Some(&cfg.class_id.clone()), false),
        Ok(RequestedInterface::TtsEngine)
    );
    assert_eq!(
        create_instance_decision(&cfg, true, Some(&cfg.tts_engine_iid.clone()), false),
        Ok(RequestedInterface::TtsEngine)
    );
    assert_eq!(
        create_instance_decision(&cfg, true, Some(&base_unknown_iid()), false),
        Ok(RequestedInterface::BaseUnknown)
    );
    assert_eq!(
        create_instance_decision(&cfg, true, Some(&cfg.object_with_token_iid.clone()), false),
        Ok(RequestedInterface::ObjectWithToken)
    );
}

#[test]
fn class_object_requires_exact_class_and_factory() {
    let class = piper_engine_clsid();
    let factory = class_factory_iid();
    assert_eq!(class_object_decision(&class, true, Some(&class), Some(&factory)), Ok(()));
    assert_eq!(
        class_object_decision(&class, false, Some(&class), Some(&factory)),
        Err(ComStatus::PointerRequired)
    );
    assert_eq!(
        class_object_decision(&class, true, None, Some(&factory)),
        Err(ComStatus::InvalidArgument)
    );
    let other = standard_engine_clsid();
    assert_eq!(
        class_object_decision(&class, true, Some(&other), Some(&factory)),
        Err(ComStatus::ClassNotAvailable)
    );
    assert_eq!(
        class_object_decision(&class, true, Some(&class), Some(&base_unknown_iid())),
        Err(ComStatus::ClassNotAvailable)
    );
}

#[test]
fn hresult_codes_match_the_host_convention() {
    assert_eq!(ComStatus::Success.hresult(), 0);
    assert_eq!(ComStatus::False.hresult(), 1);
    assert_eq!(ComStatus::Fail.hresult(), 0x80004005u32 as i32);
    assert_eq!(ComStatus::Unexpected.hresult(), 0x8000FFFFu32 as i32);
    assert_eq!(ComStatus::NotImplemented.hresult(), 0x80004001u32 as i32);
    assert_eq!(ComStatus::PointerRequired.hresult(), 0x80004003u32 as i32);
    assert_eq!(ComStatus::InvalidArgument.hresult(), 0x80070057u32 as i32);
    assert_eq!(ComStatus::NoAggregation.hresult(), 0x80040110u32 as i32);
    assert_eq!(ComStatus::NoInterface.hresult(), 0x80004002u32 as i32);
    assert_eq!(ComStatus::ClassNotAvailable.hresult(), 0x80040111u32 as i32);
    assert_eq!(ComStatus::OutOfMemory.hresult(), 0x8007000Eu32 as i32);
    assert_eq!(ComStatus::SelfRegistrationFailed.hresult(), 0x80040201u32 as i32);
}

#[test]
fn unload_query_follows_keep_alive() {
    let mut refs = ModuleRefCount::new();
    assert_eq!(can_unload_status(&refs), ComStatus::Success);
    refs.acquire();
    assert_eq!(can_unload_status(&refs), ComStatus::False);
    refs.release();
    assert_eq!(can_unload_status(&refs), ComStatus::Success);
}

#[test]
fn format_negotiation_returns_canonical_wave() {
    let canonical = standard_engine_format();
    assert_eq!(
        get_output_format(&canonical, &Some(SpeechFormat::DebugText)),
        SpeechFormat::DebugText
    );
    assert_eq!(get_output_format(&canonical, &None), SpeechFormat::Wave(canonical));
    let other = piper_engine_format();
    assert_eq!(
        get_output_format(&canonical, &Some(SpeechFormat::Wave(other))),
        SpeechFormat::Wave(canonical)
    );
}

#[test]
fn engine_formats_are_16_bit_mono_pcm() {
    let standard = standard_engine_format();
    assert_eq!(standard.samples_per_sec, 16000);
    assert_eq!(standard.avg_bytes_per_sec, 32000);
    let piper = piper_engine_format();
    assert_eq!(piper.samples_per_sec, 22050);
    assert_eq!(piper.avg_bytes_per_sec, 44100);
    assert_eq!(piper.format_tag, 1);
    assert_eq!(piper.channels, 1);
    assert_eq!(piper.bits_per_sample, 16);
}

#[test]
fn speak_and_target_format_decoding() {
    let wave = piper_engine_format();
    assert_eq!(decode_speak_format(Some(&wave)), SpeechFormat::Wave(wave));
    assert_eq!(decode_speak_format(None), SpeechFormat::DebugText);
    assert_eq!(decode_target_format(true, Some(&wave)), Some(SpeechFormat::Wave(wave)));
    assert_eq!(decode_target_format(true, None), Some(SpeechFormat::DebugText));
    assert_eq!(decode_target_format(false, None), None);
    assert!(wants_punctuation(64));
    assert!(!wants_punctuation(1 | 2 | 32));
}

#[test]
fn format_reply_identifies_and_disowns_extra_bytes() {
    let (text_id, none) = format_reply(&SpeechFormat::DebugText);
    assert!(guid_eq(&text_id, &text_format_id()));
    assert!(none.is_none());

    let mut wave = piper_engine_format();
    wave.extra_bytes = 12;
    let (wave_id, reply) = format_reply(&SpeechFormat::Wave(wave));
    assert!(guid_eq(&wave_id, &wave_format_id()));
    let reply = reply.unwrap();
    assert_eq!(reply.extra_bytes, 0);
    assert_eq!(reply.samples_per_sec, 22050);
}

#[test]
fn class_registration_plan() {
    let info = ComClassInfo {
        clsid: piper_engine_clsid(),
        class_name: Some("windows_tts_engine_piper".to_string()),
        threading_model: ComThreadingModel::Apartment,
        server_path: ComServerPath::CurrentModule,
    };
    let writes = info.registration_writes("C:\\engines\\engine.dll");
    assert_eq!(writes.len(), 3);
    assert_eq!(writes[0].key_path, "CLSID\\{9876903A-2109-4BCC-A64B-242880E12AD2}");
    assert_eq!(writes[0].value_name, None);
    assert_eq!(writes[0].data, "windows_tts_engine_piper");
    assert_eq!(
        writes[1].key_path,
        "CLSID\\{9876903A-2109-4BCC-A64B-242880E12AD2}\\InprocServer32"
    );
    assert_eq!(writes[1].data, "C:\\engines\\engine.dll");
    assert_eq!(writes[2].value_name.as_deref(), Some("ThreadingModel"));
    assert_eq!(writes[2].data, "Apartment");
    assert!(writes.iter().all(|w| w.root == RegRoot::ClassesRoot));

    let nameless = ComClassInfo {
        clsid: piper_engine_clsid(),
        class_name: None,
        threading_model: ComThreadingModel::Both,
        server_path: ComServerPath::RustPath("x".to_string()),
    };
    let writes = nameless.registration_writes("p");
    assert_eq!(writes.len(), 2);
    assert_eq!(writes[1].data, "Both");
}

#[test]
fn class_unregistration_order() {
    let keys = ComClassInfo::unregistration_keys(&piper_engine_clsid());
    assert_eq!(
        keys,
        vec![
            "CLSID\\{9876903A-2109-4BCC-A64B-242880E12AD2}\\InprocServer32".to_string(),
            "CLSID\\{9876903A-2109-4BCC-A64B-242880E12AD2}".to_string(),
        ]
    );
}

#[test]
fn threading_model_texts() {
    assert_eq!(ComThreadingModel::Apartment.registry_text(), "Apartment");
    assert_eq!(ComThreadingModel::Both.registry_text(), "Both");
    assert_eq!(ComThreadingModel::Free.registry_text(), "Free");
    assert_eq!(ComThreadingModel::Neutral.registry_text(), "Neutral");
}

#[test]
fn voice_registration_plan() {
    let voice = standard_multilingual_voice();
    let tokens = ParentRegKey {
        root: RegRoot::LocalMachine,
        path: "SOFTWARE\\Microsoft\\Speech\\Voices\\Tokens\\".to_string(),
    };
    let writes = voice.registration_writes(&tokens).unwrap();
    assert_eq!(writes.len(), 7);
    let voice_key = "SOFTWARE\\Microsoft\\Speech\\Voices\\Tokens\\Lej77_TTS_Multilingual";
    assert_eq!(writes[0].key_path, voice_key);
    assert_eq!(writes[0].value_name, None);
    assert_eq!(writes[0].data, "Lej77 - Multilingual");
    assert_eq!(writes[1].value_name.as_deref(), Some("CLSID"));
    assert_eq!(writes[1].data, "{F91EF41B-D593-442E-8730-064336410310}");
    let attr_key = format!("{voice_key}\\Attributes");
    for w in &writes[2..] {
        assert_eq!(w.key_path, attr_key);
    }
    assert_eq!(writes[2].value_name.as_deref(), Some("Name"));
    assert_eq!(writes[2].data, "Multilingual");
    assert_eq!(writes[5].value_name.as_deref(), Some("Language"));
    assert_eq!(writes[5].data, "409");
}

#[test]
fn voice_key_name_with_separator_is_rejected() {
    let mut voice = piper_multilingual_voice();
    voice.key_name = "bad\\name".to_string();
    let tokens = ParentRegKey { root: RegRoot::LocalMachine, path: "T".to_string() };
    assert_eq!(
        voice.registration_writes(&tokens),
        Err(RegistrationError::KeyNameHasPathSeparator)
    );
}

#[test]
fn voice_removal_order() {
    let voice = piper_multilingual_voice();
    let tokens = ParentRegKey { root: RegRoot::LocalMachine, path: "Tokens".to_string() };
    let keys = voice.removal_keys(&tokens);
    assert_eq!(
        keys,
        vec![
            "Tokens\\Lej77_TTS_PIPER_MULTILINGUAL\\Attributes".to_string(),
            "Tokens\\Lej77_TTS_PIPER_MULTILINGUAL".to_string(),
        ]
    );
}

#[test]
fn uninstall_command_line_quotes_path() {
    let exe: Vec<u16> = "C:\\x.exe".encode_utf16().collect();
    let args = ascii_to_utf16(" --uninstall");
    let line = uninstall_command_line(&exe, &args);
    let expected: Vec<u16> = "\"C:\\x.exe\" --uninstall\0".encode_utf16().collect();
    assert_eq!(line, expected);
}

#[test]
fn engine_support_decisions() {
    assert!(modern_api_available(10240));
    assert!(!modern_api_available(9600));
    assert!(piper_native_format(22050, 1, 2));
    assert!(!piper_native_format(16000, 1, 2));
    assert!(!piper_native_format(22050, 2, 2));
}

#[test]
fn key_paths_join_with_single_separators() {
    assert_eq!(join_key_path("SOFTWARE\\X", "Attributes"), "SOFTWARE\\X\\Attributes");
    assert_eq!(join_key_path("SOFTWARE\\X\\", "Attributes"), "SOFTWARE\\X\\Attributes");
    assert_eq!(join_key_path("", "Attributes"), "Attributes");
    let voice = standard_multilingual_voice();
    let key = ParentRegKey { root: RegRoot::LocalMachine, path: "T".to_string() };
    assert_eq!(voice.attributes.removal_key(&key), "T\\Attributes");
}

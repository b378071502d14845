use acfunlive_neotool::error::ValidationError;
use acfunlive_neotool::spark::{Request, RequestText, Role, SparkRequest, URL};

fn request() -> SparkRequest {
    SparkRequest {
        app_id: String::from("app"),
        api_secret: String::from("secret"),
        api_key: String::from("key"),
        uid: None,
        temperature: None,
        max_tokens: None,
        top_k: None,
        chat_id: None,
        history: None,
        content: String::from("你好，你是谁？"),
    }
}

fn turn(role: Role, content: &str) -> RequestText {
    RequestText {
        role,
        content: String::from(content),
    }
}

#[test]
fn endpoint_is_the_chat_service() {
    assert_eq!(URL, "wss://spark-api.xf-yun.com/v3.1/chat");
}

#[test]
fn plain_request_is_built_with_one_user_turn() {
    let wire = Request::try_from(request()).unwrap();
    assert_eq!(wire.header.app_id, "app");
    assert_eq!(wire.header.uid, None);
    assert_eq!(wire.parameter.chat.domain, "generalv3");
    assert_eq!(wire.parameter.chat.temperature, None);
    assert_eq!(wire.parameter.chat.max_tokens, None);
    assert_eq!(wire.parameter.chat.top_k, None);
    assert_eq!(wire.parameter.chat.chat_id, None);
    assert_eq!(wire.payload.message.text, vec![turn(Role::User, "你好，你是谁？")]);
}

#[test]
fn new_turn_follows_the_history() {
    let mut asked = request();
    asked.uid = Some(String::from("user-1"));
    asked.temperature = Some(0.5f32.to_bits());
    asked.max_tokens = Some(2048);
    asked.top_k = Some(4);
    asked.chat_id = Some(String::from("chat-7"));
    asked.history = Some(vec![
        turn(Role::User, "first question"),
        turn(Role::Assistant, "first answer"),
    ]);
    asked.content = String::from("second question");
    let wire = Request::try_from(asked).unwrap();
    assert_eq!(wire.header.uid.as_deref(), Some("user-1"));
    assert_eq!(wire.parameter.chat.temperature.map(f32::from_bits), Some(0.5));
    assert_eq!(wire.parameter.chat.max_tokens, Some(2048));
    assert_eq!(wire.parameter.chat.top_k, Some(4));
    assert_eq!(wire.parameter.chat.chat_id.as_deref(), Some("chat-7"));
    assert_eq!(
        wire.payload.message.text,
        vec![
            turn(Role::User, "first question"),
            turn(Role::Assistant, "first answer"),
            turn(Role::User, "second question"),
        ]
    );
}

#[test]
fn empty_history_is_like_no_history() {
    let mut asked = request();
    asked.history = Some(Vec::new());
    let wire = Request::try_from(asked).unwrap();
    assert_eq!(wire.payload.message.text.len(), 1);
}

#[test]
fn empty_credentials_are_rejected() {
    for field in 0..3 {
        let mut asked = request();
        match field {
            0 => asked.app_id = String::new(),
            1 => asked.api_secret = String::new(),
            _ => asked.api_key = String::new(),
        }
        assert_eq!(Request::try_from(asked), Err(ValidationError::EmptyCredentials));
    }
}

#[test]
fn uid_of_32_bytes_is_accepted_and_of_33_rejected() {
    let mut asked = request();
    asked.uid = Some("u".repeat(32));
    assert!(Request::try_from(asked).is_ok());
    let mut asked = request();
    asked.uid = Some("u".repeat(33));
    assert_eq!(Request::try_from(asked), Err(ValidationError::UidTooLong));
    // The length of uid counts bytes: eleven characters of three bytes each.
    let mut asked = request();
    asked.uid = Some("用".repeat(11));
    assert_eq!(Request::try_from(asked), Err(ValidationError::UidTooLong));
    let mut asked = request();
    asked.uid = Some(String::new());
    assert!(Request::try_from(asked).is_ok());
}

#[test]
fn temperature_is_judged_as_the_number_it_stands_for() {
    let samples: [f32; 22] = [
        0.0,
        -0.0,
        1.0,
        0.5,
        f32::MIN_POSITIVE,
        1.0e-45,
        0.999_999_94,
        1.000_000_1,
        1.5,
        2.0,
        -1.0e-45,
        -f32::MIN_POSITIVE,
        -0.5,
        -1.0,
        f32::MAX,
        f32::MIN,
        f32::INFINITY,
        f32::NEG_INFINITY,
        f32::NAN,
        -f32::NAN,
        f32::EPSILON,
        1.0 + f32::EPSILON,
    ];
    for sample in samples {
        let mut asked = request();
        asked.temperature = Some(sample.to_bits());
        let expected = (0.0..=1.0).contains(&sample);
        let result = Request::try_from(asked);
        assert_eq!(result.is_ok(), expected, "{sample}");
        if !expected {
            assert_eq!(result, Err(ValidationError::TemperatureOutOfRange));
        }
    }
}

#[test]
fn every_bit_pattern_near_the_bounds_agrees_with_the_float_test() {
    let around: [u32; 5] = [0, 0x3f80_0000, 0x7f80_0000, 0x8000_0000, 0xff80_0000];
    for centre in around {
        for delta in 0..4u32 {
            for bits in [centre.wrapping_add(delta), centre.wrapping_sub(delta)] {
                let mut asked = request();
                asked.temperature = Some(bits);
                let expected = (0.0..=1.0).contains(&f32::from_bits(bits));
                assert_eq!(Request::try_from(asked).is_ok(), expected, "{bits:#x}");
            }
        }
    }
}

#[test]
fn max_tokens_bounds() {
    for (value, accepted) in [(0u32, false), (1, true), (8192, true), (8193, false), (u32::MAX, false)] {
        let mut asked = request();
        asked.max_tokens = Some(value);
        let result = Request::try_from(asked);
        if accepted {
            assert_eq!(result.unwrap().parameter.chat.max_tokens, Some(value));
        } else {
            assert_eq!(result, Err(ValidationError::MaxTokensOutOfRange));
        }
    }
}

#[test]
fn top_k_bounds() {
    for (value, accepted) in [(0u8, false), (1, true), (6, true), (7, false), (u8::MAX, false)] {
        let mut asked = request();
        asked.top_k = Some(value);
        let result = Request::try_from(asked);
        if accepted {
            assert_eq!(result.unwrap().parameter.chat.top_k, Some(value));
        } else {
            assert_eq!(result, Err(ValidationError::TopKOutOfRange));
        }
    }
}

#[test]
fn content_of_10000_characters_is_accepted_and_of_10001_rejected() {
    let mut asked = request();
    asked.content = "c".repeat(10_000);
    assert!(Request::try_from(asked).is_ok());
    let mut asked = request();
    asked.content = "c".repeat(10_001);
    assert_eq!(Request::try_from(asked), Err(ValidationError::ContentTooLong));
}

#[test]
fn content_length_counts_characters() {
    // 10000 characters of three bytes each.
    let mut asked = request();
    asked.content = "汉".repeat(10_000);
    assert!(Request::try_from(asked).is_ok());
    let mut asked = request();
    asked.content = "汉".repeat(10_001);
    assert_eq!(Request::try_from(asked), Err(ValidationError::ContentTooLong));
}

#[test]
fn history_counts_towards_the_content_length() {
    let mut asked = request();
    asked.history = Some(vec![
        turn(Role::User, &"a".repeat(4_000)),
        turn(Role::Assistant, &"b".repeat(4_000)),
    ]);
    asked.content = "c".repeat(2_000);
    assert_eq!(Request::try_from(asked).unwrap().payload.message.text.len(), 3);
    let mut asked = request();
    asked.history = Some(vec![
        turn(Role::User, &"a".repeat(4_000)),
        turn(Role::Assistant, &"b".repeat(4_000)),
    ]);
    asked.content = "c".repeat(2_001);
    assert_eq!(Request::try_from(asked), Err(ValidationError::ContentTooLong));
    let mut asked = request();
    asked.history = Some(vec![
        turn(Role::User, &"a".repeat(6_000)),
        turn(Role::Assistant, &"b".repeat(6_000)),
    ]);
    asked.content = String::new();
    assert_eq!(Request::try_from(asked), Err(ValidationError::ContentTooLong));
}

#[test]
fn the_first_broken_rule_is_the_one_reported() {
    let mut asked = request();
    asked.uid = Some("u".repeat(40));
    asked.temperature = Some(2.0f32.to_bits());
    asked.max_tokens = Some(0);
    asked.top_k = Some(9);
    asked.content = "c".repeat(20_000);
    assert_eq!(Request::try_from(asked.clone()), Err(ValidationError::UidTooLong));
    asked.uid = None;
    assert_eq!(Request::try_from(asked.clone()), Err(ValidationError::TemperatureOutOfRange));
    asked.temperature = None;
    assert_eq!(Request::try_from(asked.clone()), Err(ValidationError::MaxTokensOutOfRange));
    asked.max_tokens = None;
    assert_eq!(Request::try_from(asked.clone()), Err(ValidationError::TopKOutOfRange));
    asked.top_k = None;
    assert_eq!(Request::try_from(asked.clone()), Err(ValidationError::ContentTooLong));
    asked.app_id = String::new();
    assert_eq!(Request::try_from(asked), Err(ValidationError::EmptyCredentials));
}

#[test]
fn messages_name_the_field_and_the_bound() {
    assert_eq!(ValidationError::EmptyCredentials.message(), "app_id, api_secret or api_key is empty");
    assert_eq!(ValidationError::UidTooLong.message(), "the length of uid is greater than 32");
    assert_eq!(
        ValidationError::TemperatureOutOfRange.message(),
        "the temperature is less than 0 or greater than 1"
    );
    assert_eq!(
        ValidationError::MaxTokensOutOfRange.message(),
        "the max tokens is less than 1 or greater than 8192"
    );
    assert_eq!(ValidationError::TopKOutOfRange.message(), "the top_k is less than 1 or greater than 6");
    assert_eq!(
        ValidationError::ContentTooLong.message(),
        "the length of contents is greater than 10000"
    );
    assert_eq!(ValidationError::EmptyVoice.message(), "vcn is empty");
    assert_eq!(ValidationError::SpeedOutOfRange.message(), "speed is less than 0 or greater than 100");
    assert_eq!(ValidationError::VolumeOutOfRange.message(), "volume is less than 0 or greater than 100");
    assert_eq!(ValidationError::PitchOutOfRange.message(), "pitch is less than 0 or greater than 100");
    assert_eq!(
        ValidationError::TextTooLong.message(),
        "the text's length (in bytes) is greater than 8000"
    );
}

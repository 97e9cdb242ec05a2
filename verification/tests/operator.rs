use formula_rs_wasm::parse::dependencies::get_dependencies;
use formula_rs_wasm::share::codec;
use formula_rs_wasm::share::codec::decode;
use formula_rs_wasm::share::operator::OperatorCode;
use formula_rs_wasm::share::rational::Rational;
use formula_rs_wasm::{compile, dependencies, to_operators};

#[test]
fn encode() {
    let a = vec![
        OperatorCode::LoadIdentifier("a".to_string()),
        OperatorCode::PushString("123".to_string()),
        OperatorCode::Subtract,
    ];
    let encoded: Vec<u8> = codec::encode(&a);
    println!("{:?}", encoded);
    let decoded: Vec<OperatorCode> = decode(&encoded).unwrap();
    assert_eq!(a, decoded);
}

#[test]
fn codec_round_trip_of_every_instruction() {
    let all = vec![
        OperatorCode::Add,
        OperatorCode::Subtract,
        OperatorCode::Multiply,
        OperatorCode::Divide,
        OperatorCode::Modulo,
        OperatorCode::Factorial,
        OperatorCode::Power,
        OperatorCode::PushNumber(Rational::new(-6, 5).unwrap()),
        OperatorCode::PushNumber(i64::MIN.into()),
        OperatorCode::PushNumber(i64::MAX.into()),
        OperatorCode::PushNumber(Rational::new(1, i64::MAX).unwrap()),
        OperatorCode::PushNumber(0.into()),
        OperatorCode::PushString("".to_string()),
        OperatorCode::PushString("我是中文 😀\n\"'".to_string()),
        OperatorCode::LoadIdentifier("$name".to_string()),
        OperatorCode::LoadPropertyAccess("estimatePoint".to_string()),
        OperatorCode::FilterExpression("status".to_string(), "==".to_string(), "2".to_string()),
        OperatorCode::Call(0),
        OperatorCode::Call(255),
    ];
    assert_eq!(decode(&codec::encode(&all)), Some(all.clone()));
    assert_eq!(decode(&codec::encode(&vec![])), Some(vec![]));
    for code in all {
        assert_eq!(decode(&codec::encode(&vec![code.clone()])), Some(vec![code]));
    }
}

#[test]
fn codec_round_trip_of_compiled_formulas() {
    for text in [
        "(1+1)*3",
        "0.1 + 0.2",
        "5!",
        "2 ^ -2",
        "SUM(subtask.estimatePoint; status == 2)",
        "COUNT(relationship; relationship = CHILD)",
        "estimatePoint ^ COUNT(subtask.estimatePoint; status==3) + SUM(subtask.estimatePoint; status==2)",
        "'a' + \"b\" - -c % 3 / 4",
        "2 > 1",
    ] {
        let operators = to_operators(text).unwrap();
        let bytes = compile(text.to_string()).unwrap();
        assert_eq!(bytes, codec::encode(&operators));
        assert_eq!(decode(&bytes), Some(operators.clone()));
        assert_eq!(dependencies(&bytes), Some(get_dependencies(&operators)));
    }
    assert!(compile("1 +".to_string()).is_err());
}

#[test]
fn codec_bytes() {
    assert_eq!(codec::encode(&vec![]), vec![0, 0, 0, 0, 0, 0, 0, 0]);
    assert_eq!(
        codec::encode(&vec![OperatorCode::Add, OperatorCode::Call(3)]),
        vec![2, 0, 0, 0, 0, 0, 0, 0, 0, 12, 3]
    );
    assert_eq!(
        codec::encode(&vec![OperatorCode::PushNumber(Rational::new(-258, 5).unwrap())]),
        vec![1, 0, 0, 0, 0, 0, 0, 0, 7, 1, 2, 1, 0, 0, 0, 0, 0, 0, 5, 0, 0, 0, 0, 0, 0, 0]
    );
    assert_eq!(
        codec::encode(&vec![OperatorCode::LoadIdentifier("aé".to_string())]),
        vec![1, 0, 0, 0, 0, 0, 0, 0, 9, 2, 0, 0, 0, 0, 0, 0, 0, 97, 0, 0, 0, 233, 0, 0, 0]
    );
}

#[test]
fn codec_rejects_what_is_no_program() {
    let good = codec::encode(&vec![
        OperatorCode::PushNumber(Rational::new(1, 2).unwrap()),
        OperatorCode::PushString("x".to_string()),
        OperatorCode::Call(1),
    ]);
    assert!(decode(&good).is_some());
    for cut in 0..good.len() {
        assert_eq!(decode(&good[..cut].to_vec()), None, "{}", cut);
    }
    let mut more = good.clone();
    more.push(0);
    assert_eq!(decode(&more), None);
    assert_eq!(decode(&vec![1, 0, 0, 0, 0, 0, 0, 0, 13]), None);
    assert_eq!(decode(&vec![1, 0, 0, 0, 0, 0, 0, 0, 12]), None);
    assert_eq!(decode(&vec![2, 0, 0, 0, 0, 0, 0, 0, 0]), None);
    let number = |sign: u8, numer: u64, denom: u64| {
        let mut bytes = vec![1, 0, 0, 0, 0, 0, 0, 0, 7, sign];
        bytes.extend_from_slice(&numer.to_le_bytes());
        bytes.extend_from_slice(&denom.to_le_bytes());
        decode(&bytes)
    };
    assert_eq!(number(0, 1, 2), Some(vec![OperatorCode::PushNumber(Rational::new(1, 2).unwrap())]));
    assert_eq!(number(1, 1, 2), Some(vec![OperatorCode::PushNumber(Rational::new(-1, 2).unwrap())]));
    assert_eq!(number(1, 1 << 63, 1), Some(vec![OperatorCode::PushNumber(i64::MIN.into())]));
    assert_eq!(number(0, 2, 4), None);
    assert_eq!(number(0, 0, 2), None);
    assert_eq!(number(0, 1, 0), None);
    assert_eq!(number(2, 1, 2), None);
    assert_eq!(number(1, 0, 1), None);
    assert_eq!(number(0, 1 << 63, 1), None);
    assert_eq!(number(1, (1 << 63) + 1, 1), None);
    assert_eq!(number(0, 1, 1 << 63), None);
    let text = |code: u32| {
        let mut bytes = vec![1, 0, 0, 0, 0, 0, 0, 0, 8, 1, 0, 0, 0, 0, 0, 0, 0];
        bytes.extend_from_slice(&code.to_le_bytes());
        decode(&bytes)
    };
    assert_eq!(text(0x41), Some(vec![OperatorCode::PushString("A".to_string())]));
    assert_eq!(text(0x10FFFF), Some(vec![OperatorCode::PushString("\u{10FFFF}".to_string())]));
    assert_eq!(text(0xD800), None);
    assert_eq!(text(0x110000), None);
    assert_eq!(dependencies(&vec![9]), None);
}

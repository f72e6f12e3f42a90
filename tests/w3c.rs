use indy_w3c::json::{render_json, JsonValue};
use indy_w3c::presentation::{presentation_of, to_vp, Identifier, MappingError, Proof};
use indy_w3c::structure::{
    array_has_value, check_all, check_structure, check_vc, decimal_text, last_segment_of,
    text_matches_regex, CheckError,
};
use serde_json::Value;

fn to_document(v: &Value) -> JsonValue {
    match v {
        Value::Null => JsonValue::Null,
        Value::Bool(b) => JsonValue::Bool(*b),
        Value::Number(n) => JsonValue::Number(n.to_string()),
        Value::String(s) => JsonValue::Str(s.clone()),
        Value::Array(items) => JsonValue::Array(items.iter().map(to_document).collect()),
        Value::Object(members) => JsonValue::Object(
            members.iter().map(|(k, x)| (k.clone(), to_document(x))).collect(),
        ),
    }
}

fn parse(text: &str) -> JsonValue {
    to_document(&serde_json::from_str::<Value>(text).unwrap())
}

fn proof_from_json(text: &str) -> Proof {
    let v: Value = serde_json::from_str(text).unwrap();
    let identifiers = v["identifiers"]
        .as_array()
        .unwrap()
        .iter()
        .map(|i| Identifier { cred_def_id: i["cred_def_id"].as_str().unwrap().to_string() })
        .collect();
    Proof { identifiers }
}

fn proof_of(ids: &[&str]) -> Proof {
    Proof {
        identifiers: ids.iter().map(|s| Identifier { cred_def_id: s.to_string() }).collect(),
    }
}

fn child<'a>(doc: &'a JsonValue, key: &str) -> &'a JsonValue {
    match doc {
        JsonValue::Object(members) => &members.iter().find(|(k, _)| k == key).unwrap().1,
        _ => panic!("not an object"),
    }
}

fn items(v: &JsonValue) -> &Vec<JsonValue> {
    match v {
        JsonValue::Array(items) => items,
        _ => panic!("not an array"),
    }
}

fn text(v: &JsonValue) -> &str {
    match v {
        JsonValue::Str(s) => s.as_str(),
        _ => panic!("not a string"),
    }
}

#[test]
fn mapping_works() {
    let proof = proof_from_json(FAKE_PROOF_JSON);
    let vp = to_vp(&proof).unwrap();
    let mut errors: Vec<String> = Vec::new();
    let v = parse(&vp);

    check_structure(&v, "@context", "HAS https://www.w3.org/2018/credentials/v1", &mut errors).unwrap();
    check_structure(&v, "type", "LIKE VerifiablePresentation", &mut errors).unwrap();
    if check_structure(&v, "verifiableCredential", "is array", &mut errors).unwrap() {
        let vcs = items(child(&v, "verifiableCredential"));
        let mut i: usize = 0;
        for vc in vcs {
            check_vc(vc, i, &mut errors);
            i += 1;
        }
    }
    if check_structure(&v, "proof", "is object", &mut errors).unwrap() {}

    if !errors.is_empty() {
        panic!("Presentation structure has errors: {}.\n\nPresentation was: {}", &errors.join(". "), &vp);
    }
}

#[test]
fn presentation_text_is_exact() {
    let proof = proof_from_json(FAKE_PROOF_JSON);
    let vp = to_vp(&proof).unwrap();
    assert_eq!(
        vp,
        "{\"@context\":[\"https://www.w3.org/2018/credentials/v1\",\"NcYxi...cYDi1e:2:gvt:1.0:TAG_1\"],\
         \"type\":\"VerifiablePresentation\",\
         \"verifiableCredential\":[{\"@context\":[\"https://www.w3.org/2018/credentials/v1\"],\"type\":[\"VerifiableCredential\"]}],\
         \"proof\":{\"type\":\"AnonCredPresentationProofv1\"}}"
    );
}

#[test]
fn end_to_end_fields() {
    let proof = proof_from_json(FAKE_PROOF_JSON);
    let doc = parse(&to_vp(&proof).unwrap());
    assert_eq!(text(&items(child(&doc, "@context"))[1]), "NcYxi...cYDi1e:2:gvt:1.0:TAG_1");
    let cred = &items(child(&doc, "verifiableCredential"))[0];
    assert_eq!(text(&items(child(cred, "type"))[0]), "VerifiableCredential");
    assert_eq!(text(child(child(&doc, "proof"), "type")), "AnonCredPresentationProofv1");
}

#[test]
fn mapping_is_deterministic() {
    let proof = proof_from_json(FAKE_PROOF_JSON);
    assert_eq!(to_vp(&proof).unwrap(), to_vp(&proof).unwrap());
}

#[test]
fn empty_identifiers_are_refused() {
    let proof = proof_of(&[]);
    assert_eq!(to_vp(&proof), Err(MappingError::NoIdentifiers));
}

#[test]
fn context_takes_first_identifier() {
    let proof = proof_of(&["first:id", "second:id", "third:id"]);
    let doc = parse(&to_vp(&proof).unwrap());
    let context = items(child(&doc, "@context"));
    assert_eq!(context.len(), 2);
    assert_eq!(text(&context[0]), "https://www.w3.org/2018/credentials/v1");
    assert_eq!(text(&context[1]), "first:id");
}

#[test]
fn single_credential_for_many_identifiers() {
    let proof = proof_of(&["a", "b", "c"]);
    let vp = presentation_of(&proof);
    assert_eq!(vp.creds.len(), 1);
    let doc = parse(&to_vp(&proof).unwrap());
    assert_eq!(items(child(&doc, "verifiableCredential")).len(), 1);
}

#[test]
fn fixed_literals_for_any_identifier() {
    for id in ["x", "", "with \"quotes\" and \\ slash", "line\nbreak"] {
        let doc = parse(&to_vp(&proof_of(&[id])).unwrap());
        assert_eq!(text(child(&doc, "type")), "VerifiablePresentation");
        assert_eq!(text(child(child(&doc, "proof"), "type")), "AnonCredPresentationProofv1");
        assert_eq!(text(&items(child(&doc, "@context"))[1]), id);
    }
}

#[test]
fn identifier_is_escaped() {
    let vp = to_vp(&proof_of(&["a\"b"])).unwrap();
    assert!(vp.contains("\"a\\\"b\""));
}

#[test]
fn render_matches_serde_json() {
    let source = r#"{"a":[1,2.5,"x\ty",null,true,false,{"k":[]}],"b":{}}"#;
    let value: Value = serde_json::from_str(source).unwrap();
    assert_eq!(render_json(&to_document(&value)), value.to_string());
}

#[test]
fn is_array_holds_without_violation() {
    let doc = parse(r#"{"type":["a","b"]}"#);
    let mut errors = Vec::new();
    assert_eq!(check_structure(&doc, "type", "is array", &mut errors), Ok(true));
    assert!(errors.is_empty());
}

#[test]
fn kind_checks() {
    let doc = parse(r#"{"n":3,"s":"t","o":{},"a":[]}"#);
    let mut errors = Vec::new();
    assert_eq!(check_structure(&doc, "n", "is number", &mut errors), Ok(true));
    assert_eq!(check_structure(&doc, "s", "is string", &mut errors), Ok(true));
    assert_eq!(check_structure(&doc, "o", "is object", &mut errors), Ok(true));
    assert_eq!(check_structure(&doc, "a", "is object", &mut errors), Ok(false));
    assert_eq!(check_structure(&doc, "s", "is number", &mut errors), Ok(false));
    assert_eq!(errors, vec!["Expected a is object".to_string(), "Expected s is number".to_string()]);
}

#[test]
fn has_finds_string_literal() {
    let doc = parse(r#"{"@context":["https://www.w3.org/2018/credentials/v1","other"]}"#);
    let mut errors = Vec::new();
    assert_eq!(
        check_structure(&doc, "@context", "HAS https://www.w3.org/2018/credentials/v1", &mut errors),
        Ok(true)
    );
    assert!(errors.is_empty());
}

#[test]
fn has_misses_absent_literal() {
    let doc = parse(r#"{"@context":["https://example.org/v2"]}"#);
    let mut errors = Vec::new();
    assert_eq!(
        check_structure(&doc, "@context", "HAS https://www.w3.org/2018/credentials/v1", &mut errors),
        Ok(false)
    );
    assert_eq!(errors, vec!["Expected @context HAS https://www.w3.org/2018/credentials/v1".to_string()]);
}

#[test]
fn has_compares_number_text() {
    let doc = parse(r#"{"a":[18,"19",[1,2]]}"#);
    assert!(array_has_value(child(&doc, "a"), "18"));
    assert!(array_has_value(child(&doc, "a"), "19"));
    assert!(array_has_value(child(&doc, "a"), "[1,2]"));
    assert!(!array_has_value(child(&doc, "a"), "\"19\""));
    assert!(!array_has_value(child(&doc, "a"), "20"));
}

#[test]
fn has_on_non_array_fails() {
    let doc = parse(r#"{"a":"x"}"#);
    assert!(!array_has_value(child(&doc, "a"), "x"));
}

#[test]
fn like_matches_anywhere() {
    let doc = parse(r#"{"type":"VerifiablePresentation"}"#);
    let mut errors = Vec::new();
    assert_eq!(check_structure(&doc, "type", "LIKE VerifiablePresentation", &mut errors), Ok(true));
    assert_eq!(check_structure(&doc, "type", "LIKE Presentation$", &mut errors), Ok(true));
    assert_eq!(check_structure(&doc, "type", "LIKE ^Presentation", &mut errors), Ok(false));
    assert_eq!(errors.len(), 1);
}

#[test]
fn like_on_non_string_fails() {
    let doc = parse(r#"{"type":["VerifiablePresentation"]}"#);
    assert_eq!(text_matches_regex(child(&doc, "type"), "Verifiable"), Ok(false));
}

#[test]
fn like_with_bad_regex_is_error() {
    let doc = parse(r#"{"type":"x"}"#);
    let mut errors = Vec::new();
    assert_eq!(check_structure(&doc, "type", "LIKE (", &mut errors), Err(CheckError::InvalidPattern));
    assert!(errors.is_empty());
}

#[test]
fn malformed_expectation_is_error() {
    let doc = parse(r#"{"type":"x"}"#);
    let mut errors = Vec::new();
    assert_eq!(check_structure(&doc, "type", "is text", &mut errors), Err(CheckError::MalformedExpectation));
    assert_eq!(check_structure(&doc, "type", "HAS", &mut errors), Err(CheckError::MalformedExpectation));
    assert_eq!(check_structure(&doc, "missing", "", &mut errors), Err(CheckError::MalformedExpectation));
    assert!(errors.is_empty());
}

#[test]
fn missing_child_records_one_violation() {
    let doc = parse(r#"{"type":"VerifiablePresentation"}"#);
    let mut errors = Vec::new();
    assert_eq!(check_structure(&doc, "proof", "is object", &mut errors), Ok(false));
    assert_eq!(errors, vec!["Expected proof is object".to_string()]);
}

#[test]
fn null_child_fails() {
    let doc = parse(r#"{"proof":null}"#);
    let mut errors = Vec::new();
    assert_eq!(check_structure(&doc, "proof", "is object", &mut errors), Ok(false));
    assert_eq!(errors.len(), 1);
}

#[test]
fn only_last_segment_is_looked_up() {
    let doc = parse(r#"{"c":[1],"a":{"b":{"c":"deep"}}}"#);
    let mut errors = Vec::new();
    assert_eq!(check_structure(&doc, "a/b/c", "is array", &mut errors), Ok(true));
    assert_eq!(check_structure(&doc, "a/b/c", "is string", &mut errors), Ok(false));
    assert_eq!(errors, vec!["Expected a/b/c is string".to_string()]);
    assert_eq!(last_segment_of("a/b/c"), "c");
    assert_eq!(last_segment_of("plain"), "plain");
    assert_eq!(last_segment_of("ends/"), "");
}

#[test]
fn batch_reports_every_failure() {
    let doc = parse(r#"{"type":"VerifiablePresentation"}"#);
    let checks = vec![
        ("proof".to_string(), "is object".to_string()),
        ("type".to_string(), "is array".to_string()),
        ("@context".to_string(), "HAS x".to_string()),
    ];
    let messages = check_all(&doc, &checks).unwrap();
    assert_eq!(
        messages,
        vec![
            "Expected proof is object".to_string(),
            "Expected type is array".to_string(),
            "Expected @context HAS x".to_string(),
        ]
    );
}

#[test]
fn batch_keeps_passing_checks_silent() {
    let doc = parse(r#"{"type":"VerifiablePresentation"}"#);
    let checks = vec![
        ("type".to_string(), "is string".to_string()),
        ("type".to_string(), "is number".to_string()),
    ];
    assert_eq!(check_all(&doc, &checks).unwrap(), vec!["Expected type is number".to_string()]);
}

#[test]
fn batch_with_malformed_expectation_is_error() {
    let doc = parse(r#"{"type":"x"}"#);
    let checks = vec![
        ("type".to_string(), "is number".to_string()),
        ("type".to_string(), "bogus".to_string()),
    ];
    assert_eq!(check_all(&doc, &checks), Err(CheckError::MalformedExpectation));
}

#[test]
fn vc_paths_carry_the_index() {
    let doc = parse(r#"{"type":["Other"]}"#);
    let mut errors = Vec::new();
    check_vc(&doc, 12, &mut errors);
    assert_eq!(
        errors,
        vec![
            "Expected verifiableCredential[12]/type HAS VerifiableCredential".to_string(),
            "Expected verifiableCredential[12]/@context HAS https://www.w3.org/2018/credentials/v1".to_string(),
        ]
    );
}

#[test]
fn decimal_digits() {
    assert_eq!(decimal_text(0), "0");
    assert_eq!(decimal_text(7), "7");
    assert_eq!(decimal_text(120), "120");
    assert_eq!(decimal_text(usize::MAX), usize::MAX.to_string());
}

const FAKE_PROOF_JSON: &'static str = r#"{
  "proof":{
    "proofs":[
      {
        "primary_proof":{
          "eq_proof":{
            "revealed_attrs":{
              "height":"175",
              "name":"1139481716457488690172217916278103335"
            },
            "a_prime":"5817705...096889",
            "e":"1270938...756380",
            "v":"1138...39984052",
            "m":{
              "master_secret":"375275...0939395",
              "sex":"3511483...897083518",
              "age":"13430...63372249"
            },
            "m2":"1444497...2278453"
          },
          "ge_proofs":[
            {
              "u":{
                "1":"152500...3999140",
                "2":"147748...2005753",
                "0":"8806...77968",
                "3":"10403...8538260"
              },
              "r":{
                "2":"15706...781609",
                "3":"343...4378642",
                "0":"59003...702140",
                "DELTA":"9607...28201020",
                "1":"180097...96766"
              },
              "mj":"134300...249",
              "alpha":"827896...52261",
              "t":{
                "2":"7132...47794",
                "3":"38051...27372",
                "DELTA":"68025...508719",
                "1":"32924...41082",
                "0":"74906...07857"
              },
              "predicate":{
                "attr_name":"age",
                "p_type":"GE",
                "value":18
              }
            }
          ]
        },
        "non_revoc_proof":null
      }
    ],
    "aggregated_proof":{
      "c_hash":"108743...92564",
      "c_list":[
        [0,1,2,3,4,255],
        [0,1,2,3,4,255],
        [0,1,2,3,4,255],
        [0,1,2,3,4,255],
        [0,1,2,3,4,255],
        [0,1,2,3,4,255]
      ]
    }
  },
  "requested_proof":{
    "revealed_attrs":{
      "attr1_referent":{
        "sub_proof_index":0,
        "raw":"Alex",
        "encoded":"1139481716457488690172217916278103335"
      }
    },
    "revealed_attr_groups":{
      "attr4_referent":{
        "sub_proof_index":0,
        "values":{
          "name":{
            "raw":"Alex",
            "encoded":"1139481716457488690172217916278103335"
          },
          "height":{
            "raw":"175",
            "encoded":"175"
          }
        }
      }
    },
    "self_attested_attrs":{
      "attr3_referent":"8-800-300"
    },
    "unrevealed_attrs":{
      "attr2_referent":{
        "sub_proof_index":0
      }
    },
    "predicates":{
      "predicate1_referent":{
        "sub_proof_index":0
      }
    }
  },
  "identifiers":[
    {
      "schema_id":"NcYxiDXkpYi6ov5FcYDi1e:2:gvt:1.0",
      "cred_def_id":"NcYxi...cYDi1e:2:gvt:1.0:TAG_1",
      "rev_reg_id":null,
      "timestamp":null
    }
  ]
}"#;

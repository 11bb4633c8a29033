use savon::wsdl::{parse, split_namespace, Message, Occurence, Operation, SimpleType, Type,
    TypeAttribute, Wsdl, WsdlError};

fn example_wsdl() -> &'static str {
    r#"<?xml version="1.0" encoding="UTF-8"?>
<wsdl:definitions xmlns:wsdl="http://schemas.xmlsoap.org/wsdl/"
    xmlns:xs="http://www.w3.org/2001/XMLSchema"
    xmlns:tns="http://example.com/countries"
    targetNamespace="http://example.com/countries">
  <wsdl:types>
    <xs:schema targetNamespace="http://example.com/countries">
      <xs:element name="GetCountriesRequest">
        <xs:complexType>
          <xs:sequence>
            <xs:element name="continent" type="xs:string"/>
            <xs:element name="limit" type="xs:int" minOccurs="0" maxOccurs="1"/>
          </xs:sequence>
        </xs:complexType>
      </xs:element>
      <xs:complexType name="GetCountriesResponse">
        <xs:sequence>
          <xs:element name="names" type="xs:string" minOccurs="0" maxOccurs="unbounded"/>
          <xs:element name="count" type="xs:int"/>
        </xs:sequence>
      </xs:complexType>
    </xs:schema>
  </wsdl:types>
  <wsdl:message name="GetCountriesRequest">
    <wsdl:part name="parameters" element="tns:GetCountriesRequest"/>
  </wsdl:message>
  <wsdl:message name="GetCountriesResponse">
    <wsdl:part name="parameters" element="tns:GetCountriesResponse"/>
  </wsdl:message>
  <wsdl:portType name="CountriesPortType">
    <wsdl:operation name="GetCountries">
      <wsdl:input message="tns:GetCountriesRequest"/>
      <wsdl:output message="tns:GetCountriesResponse"/>
    </wsdl:operation>
  </wsdl:portType>
  <wsdl:service name="CountriesService">
    <wsdl:port name="CountriesPort" binding="tns:CountriesBinding"/>
  </wsdl:service>
</wsdl:definitions>"#
}

fn wikipedia_wsdl() -> &'static str {
    r#"<?xml version="1.0"?>
<definitions xmlns="http://schemas.xmlsoap.org/wsdl/"
    xmlns:xsd="http://www.w3.org/2001/XMLSchema"
    xmlns:tns="http://www.example.org/endorsement"
    targetNamespace="http://www.example.org/endorsement">
  <types>
    <schema xmlns="http://www.w3.org/2001/XMLSchema">
      <complexType name="EndorsementRequest">
        <sequence>
          <element name="endorsingBoarder" type="xsd:string"/>
          <element name="dob" type="xsd:dateTime" nillable="true"/>
        </sequence>
      </complexType>
      <complexType name="Base" abstract="true">
        <sequence>
          <element name="x" type="xsd:string"/>
        </sequence>
      </complexType>
      <complexType name="Derived">
        <complexContent>
          <extension base="tns:Base"/>
        </complexContent>
      </complexType>
      <complexType name="EndorsementError">
        <sequence>
          <element name="reason" type="xsd:string"/>
        </sequence>
      </complexType>
    </schema>
  </types>
  <message name="EndorsementRequest">
    <part name="body" element="tns:EndorsementRequest"/>
  </message>
  <message name="EndorsementResponse">
    <part name="body" element="tns:EndorsementRequest"/>
  </message>
  <message name="EndorsementFault">
    <part name="body" element="tns:EndorsementError"/>
  </message>
  <portType name="GetEndorsingBoarderPortType">
    <operation name="GetEndorsingBoarder">
      <input message="tns:EndorsementRequest"/>
      <output message="tns:EndorsementResponse"/>
      <fault name="error" message="tns:EndorsementFault"/>
    </operation>
    <operation name="NotifyBoarder">
      <input message="tns:EndorsementRequest"/>
    </operation>
  </portType>
  <service name="EndorsementSearchService">
    <port name="GetEndorsingBoarderPort" binding="tns:EndorsementSearchSoapBinding"/>
  </service>
</definitions>"#
}

fn whwebservice_wsdl() -> &'static str {
    r#"<?xml version="1.0"?>
<definitions xmlns="http://schemas.xmlsoap.org/wsdl/"
    xmlns:xsd="http://www.w3.org/2001/XMLSchema"
    xmlns:tns="urn:wh" targetNamespace="urn:wh">
  <types>
    <schema xmlns="http://www.w3.org/2001/XMLSchema">
      <complexType name="Item">
        <sequence>
          <element name="sku" type="xsd:string"/>
          <element name="weight" type="xsd:float"/>
          <element name="fragile" type="xsd:boolean"/>
        </sequence>
      </complexType>
      <complexType name="Shipment">
        <sequence>
          <element name="items" type="tns:Item" minOccurs="1" maxOccurs="2"/>
          <element name="notes" type="tns:Item" minOccurs="0" maxOccurs="unbounded" nillable="true"/>
        </sequence>
      </complexType>
    </schema>
  </types>
  <message name="ShipmentMsg">
    <part name="body" element="tns:Shipment"/>
  </message>
  <portType name="WhPortType">
    <operation name="Ship">
      <input message="tns:ShipmentMsg"/>
    </operation>
  </portType>
  <service name="WHWebService">
    <port name="WhPort" binding="tns:WhBinding"/>
  </service>
</definitions>"#
}

fn assoc<'a, T>(table: &'a [(String, T)], key: &str) -> Option<&'a T> {
    table.iter().find(|p| p.0 == key).map(|p| &p.1)
}

#[test]
fn parse_example() {
    let wsdl = parse(example_wsdl().as_bytes()).unwrap();
    assert_eq!(wsdl.name, "CountriesService");
    assert_eq!(wsdl.target_namespace, "http://example.com/countries");
    assert_eq!(wsdl.types.len(), 2);
    assert_eq!(wsdl.messages.len(), 2);
    assert_eq!(wsdl.operations.len(), 1);
}

#[test]
fn parse_wikipedia() {
    let wsdl = parse(wikipedia_wsdl().as_bytes()).unwrap();
    assert_eq!(wsdl.name, "EndorsementSearchService");
    assert_eq!(wsdl.types.len(), 4);
    assert_eq!(wsdl.messages.len(), 3);
    assert_eq!(wsdl.operations.len(), 2);
    let op = assoc(&wsdl.operations, "GetEndorsingBoarder").unwrap();
    assert_eq!(op.input.as_deref(), Some("EndorsementRequest"));
    assert_eq!(op.output.as_deref(), Some("EndorsementResponse"));
    assert_eq!(op.faults.as_deref(), Some(&["EndorsementFault".to_string()][..]));
    let one_way = assoc(&wsdl.operations, "NotifyBoarder").unwrap();
    assert!(one_way.output.is_none());
    assert!(one_way.faults.is_none());
}

#[test]
fn parse_whwebservice() {
    let wsdl = parse(whwebservice_wsdl().as_bytes()).unwrap();
    assert_eq!(wsdl.name, "WHWebService");
    let shipment = match assoc(&wsdl.types, "Shipment").unwrap() {
        Type::Complex(c) => c,
        Type::Simple(_) => panic!("expected a complex type"),
    };
    let (items_attrs, items_ty) = assoc(&shipment.fields, "items").unwrap();
    assert!(matches!(items_attrs.min_occurs, Some(Occurence::Num(1))));
    assert!(matches!(items_attrs.max_occurs, Some(Occurence::Num(2))));
    assert!(!items_attrs.nillable);
    assert!(matches!(items_ty, SimpleType::Complex(s) if s == "Item"));
    let (notes_attrs, _) = assoc(&shipment.fields, "notes").unwrap();
    assert!(matches!(notes_attrs.min_occurs, Some(Occurence::Num(0))));
    assert!(matches!(notes_attrs.max_occurs, Some(Occurence::Unbounded)));
    assert!(notes_attrs.nillable);
}

#[test]
fn normalization_collapses_optional_and_bare() {
    let wsdl = parse(example_wsdl().as_bytes()).unwrap();
    let req = match assoc(&wsdl.types, "GetCountriesRequest").unwrap() {
        Type::Complex(c) => c,
        Type::Simple(_) => panic!("expected a complex type"),
    };
    // (minOccurs=0, maxOccurs=1) collapses to nillable with both cleared.
    let (limit_attrs, limit_ty) = assoc(&req.fields, "limit").unwrap();
    assert_eq!(
        *limit_attrs,
        TypeAttribute { nillable: true, min_occurs: None, max_occurs: None }
    );
    assert!(matches!(limit_ty, SimpleType::Int));
    // No bounds at all stay cleared and non-nillable.
    let (cont_attrs, cont_ty) = assoc(&req.fields, "continent").unwrap();
    assert_eq!(
        *cont_attrs,
        TypeAttribute { nillable: false, min_occurs: None, max_occurs: None }
    );
    assert!(matches!(cont_ty, SimpleType::String));
}

#[test]
fn references_resolve_in_corpus() {
    for doc in [example_wsdl(), wikipedia_wsdl(), whwebservice_wsdl()] {
        let wsdl = parse(doc.as_bytes()).unwrap();
        for (_, op) in &wsdl.operations {
            for m in op.input.iter().chain(op.output.iter()) {
                assert!(assoc(&wsdl.messages, m).is_some(), "operation references {m}");
            }
            for f in op.faults.iter().flatten() {
                assert!(assoc(&wsdl.messages, f).is_some(), "fault references {f}");
            }
        }
        for (_, msg) in &wsdl.messages {
            assert!(
                assoc(&wsdl.types, &msg.part_element).is_some(),
                "message part references {}",
                msg.part_element
            );
        }
    }
}

#[test]
fn import_overrides_target_namespace() {
    let doc = r#"<definitions xmlns="http://schemas.xmlsoap.org/wsdl/" targetNamespace="urn:own">
  <import namespace="urn:other" location="elsewhere"/>
  <binding name="b" type="tns:pt"/>
  <service name="S"/>
</definitions>"#;
    let wsdl = parse(doc.as_bytes()).unwrap();
    assert_eq!(wsdl.target_namespace, "urn:other");
    assert!(wsdl.operations.is_empty());
}

#[test]
fn binding_fallback_uses_literal_sentinels() {
    let doc = r#"<definitions xmlns="http://schemas.xmlsoap.org/wsdl/" targetNamespace="urn:lit">
  <binding name="LitBinding" type="tns:pt">
    <operation name="Submit">
      <input><body use="literal"/></input>
      <output><body use="literal"/></output>
      <fault name="oops"><body use="literal"/></fault>
    </operation>
  </binding>
  <service name="LitService"/>
</definitions>"#;
    let wsdl = parse(doc.as_bytes()).unwrap();
    let op = assoc(&wsdl.operations, "Submit").unwrap();
    assert_eq!(op.input.as_deref(), Some("LiteralRequest"));
    assert_eq!(op.output.as_deref(), Some("LiteralResponse"));
    assert_eq!(op.faults.as_deref(), Some(&["literal".to_string()][..]));
}

#[test]
fn malformed_bytes_give_parse_error() {
    let err = parse(b"<definitions><unclosed></definitions>").unwrap_err();
    assert!(matches!(err, WsdlError::Parse(_)));
}

#[test]
fn missing_service_is_reported() {
    let doc = r#"<definitions targetNamespace="urn:x"><binding name="b"/></definitions>"#;
    let err = parse(doc.as_bytes()).unwrap_err();
    assert!(matches!(err, WsdlError::ElementNotFound("service")));
}

#[test]
fn missing_target_namespace_is_reported() {
    let doc = r#"<definitions><service name="S"/><binding name="b"/></definitions>"#;
    let err = parse(doc.as_bytes()).unwrap_err();
    assert!(matches!(err, WsdlError::AttributeNotFound("targetNamespace")));
}

#[test]
fn missing_port_type_and_binding_is_reported() {
    let doc = r#"<definitions targetNamespace="urn:x"><service name="S"/></definitions>"#;
    let err = parse(doc.as_bytes()).unwrap_err();
    assert!(matches!(err, WsdlError::ElementNotFound("binding")));
}

#[test]
fn field_without_type_is_reported() {
    let doc = r#"<definitions targetNamespace="urn:x">
  <types><schema>
    <complexType name="T"><sequence><element name="f"/></sequence></complexType>
  </schema></types>
  <service name="S"/><binding name="b"/>
</definitions>"#;
    let err = parse(doc.as_bytes()).unwrap_err();
    assert!(matches!(err, WsdlError::AttributeNotFound("type")));
}

#[test]
fn bad_occurrence_is_reported() {
    let doc = r#"<definitions targetNamespace="urn:x">
  <types><schema>
    <complexType name="T"><sequence>
      <element name="f" type="xsd:int" minOccurs="lots"/>
    </sequence></complexType>
  </schema></types>
  <service name="S"/><binding name="b"/>
</definitions>"#;
    let err = parse(doc.as_bytes()).unwrap_err();
    assert!(matches!(err, WsdlError::ConversionFailed));
}

#[test]
fn oversized_occurrence_is_reported() {
    let doc = r#"<definitions targetNamespace="urn:x">
  <types><schema>
    <complexType name="T"><sequence>
      <element name="f" type="xsd:int" maxOccurs="4294967296"/>
    </sequence></complexType>
  </schema></types>
  <service name="S"/><binding name="b"/>
</definitions>"#;
    let err = parse(doc.as_bytes()).unwrap_err();
    assert!(matches!(err, WsdlError::ConversionFailed));
}

#[test]
fn type_entry_with_text_child_is_reported() {
    let doc = r#"<definitions targetNamespace="urn:x">
  <types><schema><element name="T">some text</element></schema></types>
  <service name="S"/><binding name="b"/>
</definitions>"#;
    let err = parse(doc.as_bytes()).unwrap_err();
    assert!(matches!(err, WsdlError::NotAnElement));
}

#[test]
fn empty_type_entry_is_reported() {
    let doc = r#"<definitions targetNamespace="urn:x">
  <types><schema><element name="T"></element></schema></types>
  <service name="S"/><binding name="b"/>
</definitions>"#;
    let err = parse(doc.as_bytes()).unwrap_err();
    assert!(matches!(err, WsdlError::Empty));
}

#[test]
fn message_without_part_is_reported() {
    let doc = r#"<definitions targetNamespace="urn:x">
  <message name="M"></message>
  <service name="S"/><binding name="b"/>
</definitions>"#;
    let err = parse(doc.as_bytes()).unwrap_err();
    assert!(matches!(err, WsdlError::ElementNotFound("part")));
}

#[test]
fn unknown_operation_member_is_reported() {
    let doc = r#"<definitions targetNamespace="urn:x">
  <portType name="pt">
    <operation name="op"><strange message="tns:M"/></operation>
  </portType>
  <service name="S"/>
</definitions>"#;
    let err = parse(doc.as_bytes()).unwrap_err();
    assert!(matches!(err, WsdlError::ElementNotFound("operation member")));
}

#[test]
fn duplicate_type_name_keeps_one_entry() {
    let doc = r#"<definitions targetNamespace="urn:x">
  <types><schema>
    <complexType name="Dup"><sequence><element name="a" type="xsd:string"/></sequence></complexType>
    <complexType name="Dup"><sequence><element name="b" type="xsd:int"/></sequence></complexType>
  </schema></types>
  <service name="S"/><binding name="b"/>
</definitions>"#;
    let wsdl = parse(doc.as_bytes()).unwrap();
    assert_eq!(wsdl.types.len(), 1);
    let dup = match assoc(&wsdl.types, "Dup").unwrap() {
        Type::Complex(c) => c,
        Type::Simple(_) => panic!("expected a complex type"),
    };
    // The later definition of the name wins.
    assert!(assoc(&dup.fields, "b").is_some());
    assert!(assoc(&dup.fields, "a").is_none());
}

#[test]
fn occurrence_accepts_sign_and_leading_zeros() {
    let doc = r#"<definitions targetNamespace="urn:x">
  <types><schema>
    <complexType name="T"><sequence>
      <element name="f" type="xsd:int" minOccurs="0" maxOccurs="+007"/>
    </sequence></complexType>
  </schema></types>
  <service name="S"/><binding name="b"/>
</definitions>"#;
    let wsdl = parse(doc.as_bytes()).unwrap();
    let t = match &wsdl.types[0].1 {
        Type::Complex(c) => c,
        Type::Simple(_) => panic!("expected a complex type"),
    };
    let (attrs, _) = &t.fields[0].1;
    assert!(matches!(attrs.min_occurs, Some(Occurence::Num(0))));
    assert!(matches!(attrs.max_occurs, Some(Occurence::Num(7))));
}

#[test]
fn split_namespace_strips_prefix() {
    assert_eq!(split_namespace("tns:GetCountriesRequest"), "GetCountriesRequest");
    assert_eq!(split_namespace("unqualified"), "unqualified");
    assert_eq!(split_namespace("a:b:c"), "b:c");
    assert_eq!(split_namespace(""), "");
}

#[test]
fn model_values_build_by_hand() {
    let wsdl = Wsdl {
        name: "S".to_string(),
        target_namespace: "urn:x".to_string(),
        types: vec![],
        messages: vec![(
            "M".to_string(),
            Message { part_name: "p".to_string(), part_element: "T".to_string() },
        )],
        operations: vec![(
            "Op".to_string(),
            Operation {
                name: "Op".to_string(),
                input: Some("M".to_string()),
                output: None,
                faults: None,
            },
        )],
    };
    assert_eq!(wsdl.messages[0].1.part_element, "T");
    assert_eq!(wsdl.operations[0].1.input.as_deref(), Some("M"));
}

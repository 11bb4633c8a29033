use savon::gen::{gen, gen_ready};
use savon::wsdl::{parse, SimpleType, Type, Wsdl};

fn example_wsdl() -> &'static str {
    r#"<?xml version="1.0" encoding="UTF-8"?>
<wsdl:definitions xmlns:wsdl="http://schemas.xmlsoap.org/wsdl/"
    xmlns:xs="http://www.w3.org/2001/XMLSchema"
    xmlns:tns="http://example.com/countries"
    targetNamespace="http://example.com/countries">
  <wsdl:types>
    <xs:schema targetNamespace="http://example.com/countries">
      <xs:element name="GetCountriesRequest">
        <xs:complexType>
          <xs:sequence>
            <xs:element name="continent" type="xs:string"/>
            <xs:element name="limit" type="xs:int" minOccurs="0" maxOccurs="1"/>
          </xs:sequence>
        </xs:complexType>
      </xs:element>
      <xs:complexType name="GetCountriesResponse">
        <xs:sequence>
          <xs:element name="names" type="xs:string" minOccurs="0" maxOccurs="unbounded"/>
          <xs:element name="count" type="xs:int"/>
        </xs:sequence>
      </xs:complexType>
    </xs:schema>
  </wsdl:types>
  <wsdl:message name="GetCountriesRequest">
    <wsdl:part name="parameters" element="tns:GetCountriesRequest"/>
  </wsdl:message>
  <wsdl:message name="GetCountriesResponse">
    <wsdl:part name="parameters" element="tns:GetCountriesResponse"/>
  </wsdl:message>
  <wsdl:portType name="CountriesPortType">
    <wsdl:operation name="GetCountries">
      <wsdl:input message="tns:GetCountriesRequest"/>
      <wsdl:output message="tns:GetCountriesResponse"/>
    </wsdl:operation>
  </wsdl:portType>
  <wsdl:service name="CountriesService">
    <wsdl:port name="CountriesPort" binding="tns:CountriesBinding"/>
  </wsdl:service>
</wsdl:definitions>"#
}

fn wikipedia_wsdl() -> &'static str {
    r#"<?xml version="1.0"?>
<definitions xmlns="http://schemas.xmlsoap.org/wsdl/"
    xmlns:xsd="http://www.w3.org/2001/XMLSchema"
    xmlns:tns="http://www.example.org/endorsement"
    targetNamespace="http://www.example.org/endorsement">
  <types>
    <schema xmlns="http://www.w3.org/2001/XMLSchema">
      <complexType name="EndorsementRequest">
        <sequence>
          <element name="endorsingBoarder" type="xsd:string"/>
          <element name="dob" type="xsd:dateTime" nillable="true"/>
        </sequence>
      </complexType>
      <complexType name="Base" abstract="true">
        <sequence>
          <element name="x" type="xsd:string"/>
        </sequence>
      </complexType>
      <complexType name="Derived">
        <complexContent>
          <extension base="tns:Base"/>
        </complexContent>
      </complexType>
      <complexType name="EndorsementError">
        <sequence>
          <element name="reason" type="xsd:string"/>
        </sequence>
      </complexType>
    </schema>
  </types>
  <message name="EndorsementRequest">
    <part name="body" element="tns:EndorsementRequest"/>
  </message>
  <message name="EndorsementResponse">
    <part name="body" element="tns:EndorsementRequest"/>
  </message>
  <message name="EndorsementFault">
    <part name="body" element="tns:EndorsementError"/>
  </message>
  <portType name="GetEndorsingBoarderPortType">
    <operation name="GetEndorsingBoarder">
      <input message="tns:EndorsementRequest"/>
      <output message="tns:EndorsementResponse"/>
      <fault name="error" message="tns:EndorsementFault"/>
    </operation>
    <operation name="NotifyBoarder">
      <input message="tns:EndorsementRequest"/>
    </operation>
  </portType>
  <service name="EndorsementSearchService">
    <port name="GetEndorsingBoarderPort" binding="tns:EndorsementSearchSoapBinding"/>
  </service>
</definitions>"#
}

fn generate(doc: &str) -> String {
    let wsdl = parse(doc.as_bytes()).unwrap();
    assert!(gen_ready(&wsdl));
    gen(&wsdl).unwrap()
}

#[test]
fn generate_example() {
    let code = generate(example_wsdl());
    assert!(code.contains("pub mod types {"));
    assert!(code.contains("pub mod messages {"));
    assert!(code.contains("pub struct CountriesService {"));
}

#[test]
fn generate_wikipedia() {
    let code = generate(wikipedia_wsdl());
    assert!(code.contains("pub struct EndorsementSearchService {"));
    assert!(code.contains("pub struct EndorsementRequest {"));
}

#[test]
fn request_response_method_signature() {
    // S1: an operation with input and output, no faults.
    let code = generate(example_wsdl());
    assert!(code.contains(
        "    pub async fn get_countries(&self, get_countries_request: messages::GetCountriesRequest) -> Result<Result<messages::GetCountriesResponse, ()>, savon::Error> {"
    ));
    assert!(code.contains(
        "savon::http::request_response(&self.client, &self.base_url, \"http://example.com/countries\", \"GetCountries\", &get_countries_request).await"
    ));
}

#[test]
fn repeated_string_field() {
    // S2: minOccurs=0 maxOccurs=unbounded of string.
    let code = generate(example_wsdl());
    assert!(code.contains("    pub names: Vec<String>,\n"));
    assert!(code.contains(
        "        e.extend(self.names.iter().map(|i| xmltree::Element::node(\"names\").with_text(i.to_string())).collect::<Vec<_>>());\n"
    ));
    assert!(code.contains(
        "            names: { let mut v = vec![]; for child in element.children.iter().filter_map(|c| c.as_element()) { v.push(child.get_text()"
    ));
}

#[test]
fn nillable_datetime_field() {
    // S3: a nillable dateTime becomes an optional timestamp whose
    // deserializer recovers failures to an absent value.
    let code = generate(wikipedia_wsdl());
    assert!(code.contains("    pub dob: Option<chrono::DateTime>,\n"));
    assert!(code.contains("            dob: element.get_at_path(&[\"dob\"])"));
    let dob_line = code
        .lines()
        .find(|l| l.trim_start().starts_with("dob:"))
        .unwrap();
    assert!(dob_line.trim_end().ends_with(".ok(),"));
}

#[test]
fn abstract_type_is_empty_object() {
    // S4: an abstract complex type becomes an empty value object with
    // trivial bindings.
    let code = generate(wikipedia_wsdl());
    assert!(code.contains("pub struct Base {\n}\n"));
    let base_ser = code
        .split("impl savon::gen::ToElements for Base {")
        .nth(1)
        .unwrap();
    assert!(base_ser.contains("vec![]"));
    let base_deser = code
        .split("impl savon::gen::FromElement for Base {")
        .nth(1)
        .unwrap();
    assert!(base_deser.contains("Ok(Base { })"));
    // A complexContent type is treated the same way.
    assert!(code.contains("pub struct Derived {\n}\n"));
}

#[test]
fn one_way_method_signature() {
    // S5: input only, no output, no faults.
    let code = generate(wikipedia_wsdl());
    assert!(code.contains(
        "    pub async fn notify_boarder(&self, endorsement_request: messages::EndorsementRequest) -> Result<(), savon::Error> {"
    ));
    assert!(code.contains(
        "savon::http::one_way(&self.client, &self.base_url, \"http://www.example.org/endorsement\", \"NotifyBoarder\", &endorsement_request).await"
    ));
}

#[test]
fn binding_fallback_emits_literal_sentinels() {
    // S6: no portType, operations read from the binding.
    let doc = r#"<definitions xmlns="http://schemas.xmlsoap.org/wsdl/" targetNamespace="urn:lit">
  <binding name="LitBinding" type="tns:pt">
    <operation name="Submit">
      <input><body use="literal"/></input>
      <output><body use="literal"/></output>
    </operation>
  </binding>
  <service name="LitService"/>
</definitions>"#;
    let code = generate(doc);
    assert!(code.contains("pub(crate) use savon::literal::{LiteralRequest, LiteralResponse};"));
    assert!(code.contains(
        "    pub async fn submit(&self, literal_request: messages::LiteralRequest) -> Result<Result<messages::LiteralResponse, ()>, savon::Error> {"
    ));
}

#[test]
fn faulting_operation_gets_union_and_stub() {
    let code = generate(wikipedia_wsdl());
    assert!(code.contains("pub enum GetEndorsingBoarderError {\n    EndorsementFault(EndorsementFault),\n}\n"));
    assert!(code.contains(
        "    pub async fn get_endorsing_boarder(&self, endorsement_request: messages::EndorsementRequest) -> Result<Result<messages::EndorsementResponse, messages::GetEndorsingBoarderError>, savon::Error> {"
    ));
}

#[test]
fn colliding_message_names_are_suppressed() {
    // Every message name of the example collides with a type name, so
    // exactly one set of bindings exists per name, and no wrapper.
    let code = generate(example_wsdl());
    assert_eq!(code.matches("pub struct GetCountriesRequest").count(), 1);
    assert_eq!(code.matches("pub struct GetCountriesResponse").count(), 1);
    assert!(!code.contains("pub struct GetCountriesRequest(pub types::"));
}

#[test]
fn non_colliding_message_gets_wrapper() {
    let doc = r#"<definitions xmlns="http://schemas.xmlsoap.org/wsdl/" targetNamespace="urn:wh">
  <types><schema>
    <complexType name="Shipment"><sequence>
      <element name="sku" type="xsd:string"/>
    </sequence></complexType>
  </schema></types>
  <message name="ShipmentMsg"><part name="body" element="tns:Shipment"/></message>
  <portType name="pt">
    <operation name="Ship"><input message="tns:ShipmentMsg"/></operation>
  </portType>
  <service name="WHWebService"/>
</definitions>"#;
    let code = generate(doc);
    assert!(code.contains("pub struct ShipmentMsg(pub types::Shipment);"));
    assert!(code.contains("impl savon::gen::ToElements for ShipmentMsg {"));
    assert!(code.contains("types::Shipment::from_element(element).map(ShipmentMsg)"));
}

#[test]
fn optional_scalar_and_bare_scalar_declarations() {
    // Cardinality normalization as observed in the declarations: a raw
    // (0, 1) field is optional, a raw (1, 1) field is bare.
    let doc = r#"<definitions xmlns="http://schemas.xmlsoap.org/wsdl/" targetNamespace="urn:x">
  <types><schema>
    <complexType name="T"><sequence>
      <element name="opt" type="xsd:int" minOccurs="0" maxOccurs="1"/>
      <element name="bare" type="xsd:int" minOccurs="1" maxOccurs="1"/>
      <element name="listed" type="xsd:int" minOccurs="0" maxOccurs="3"/>
    </sequence></complexType>
  </schema></types>
  <portType name="pt"/>
  <service name="S"/>
</definitions>"#;
    let code = generate(doc);
    assert!(code.contains("    pub opt: Option<i64>,\n"));
    assert!(code.contains("    pub bare: i64,\n"));
    assert!(code.contains("    pub listed: Vec<i64>,\n"));
}

#[test]
fn nillable_list_serializer_handles_absence() {
    let doc = r#"<definitions xmlns="http://schemas.xmlsoap.org/wsdl/" targetNamespace="urn:x">
  <types><schema>
    <complexType name="Item"><sequence>
      <element name="sku" type="xsd:string"/>
    </sequence></complexType>
    <complexType name="Box"><sequence>
      <element name="entries" type="tns:Item" minOccurs="0" maxOccurs="unbounded" nillable="true"/>
    </sequence></complexType>
  </schema></types>
  <portType name="pt"/>
  <service name="S"/>
</definitions>"#;
    let code = generate(doc);
    assert!(code.contains("    pub entries: Option<Vec<Item>>,\n"));
    assert!(code.contains(
        "        e.extend(self.entries.as_ref().map(|v| v.iter().map(|i| xmltree::Element::node(\"entries\").with_children(i.to_elements())).collect::<Vec<_>>()).unwrap_or_default());\n"
    ));
    assert!(code.contains("entries: Some({ let mut v = vec![]; for child in element"));
    assert!(code.contains("v.push(Item::from_element(child).map_err(savon::Error::from)?); } v })"));
}

#[test]
fn float_and_boolean_scalars() {
    let doc = r#"<definitions xmlns="http://schemas.xmlsoap.org/wsdl/" targetNamespace="urn:x">
  <types><schema>
    <complexType name="Item"><sequence>
      <element name="weight" type="xsd:float"/>
      <element name="fragile" type="xsd:boolean"/>
    </sequence></complexType>
  </schema></types>
  <portType name="pt"/>
  <service name="S"/>
</definitions>"#;
    let code = generate(doc);
    assert!(code.contains("    pub weight: f64,\n"));
    assert!(code.contains("    pub fragile: bool,\n"));
    assert!(code.contains("fragile: element.get_at_path(&[\"fragile\"]).and_then(|e| e.as_boolean())?,"));
    assert!(code.contains("weight: element.get_at_path(&[\"weight\"]).map_err(savon::Error::from)"));
}

#[test]
fn generation_is_deterministic() {
    for doc in [example_wsdl(), wikipedia_wsdl()] {
        let first = generate(doc);
        let second = generate(doc);
        assert_eq!(first, second);
    }
}

#[test]
fn service_constructors_are_emitted() {
    let code = generate(example_wsdl());
    assert!(code.contains("    pub fn new(base_url: String) -> Self {"));
    assert!(code.contains("        Self::with_client(base_url, savon::internal::reqwest::Client::new())"));
    assert!(code.contains("    pub fn with_client(base_url: String, client: savon::internal::reqwest::Client) -> Self {"));
}

#[test]
fn simple_type_entry_is_outside_the_emitter_domain() {
    let wsdl = Wsdl {
        name: "S".to_string(),
        target_namespace: "urn:x".to_string(),
        types: vec![("T".to_string(), Type::Simple(SimpleType::Int))],
        messages: vec![],
        operations: vec![],
    };
    assert!(!gen_ready(&wsdl));
}

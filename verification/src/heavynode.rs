//! The HeavyNode side of an update: where the package is uploaded, the API
//! requests that stop the server, unpack the package and start it again, how
//! their answers are judged, and the version recorded afterwards.

use vstd::prelude::*;

use crate::foreign::{json_object, json_object_text};
use crate::paths::{file_name, file_name_of};
use crate::text::{decimal, decimal_int, format_i32, format_u64, lemma_parse_decimal, parse_digits, all_digits, digits_value, lemma_decimal_reads_back};
use crate::webprocessing::{find_version, get_version_from_string, version_in};

verus! {

/// Connection and API settings of the HeavyNode account.
#[derive(Debug)]
pub struct MyConfig {
    pub server_name: String,
    pub server_port: i32,
    pub username: String,
    pub password: String,
    pub api_key: String,
    pub base_url: String,
}

impl Default for MyConfig {
    fn default() -> (config: Self)
        ensures
            config.server_name@ == "Server.fqdn"@,
            config.server_port == 1234,
            config.username@ == "User"@,
            config.password@ == "pw"@,
            config.api_key@ == "key"@,
            config.base_url@ == "url"@,
    {
        MyConfig {
            server_name: String::from_str("Server.fqdn"),
            server_port: 1234,
            username: String::from_str("User"),
            password: String::from_str("pw"),
            api_key: String::from_str("key"),
            base_url: String::from_str("url"),
        }
    }
}

/// A JSON `POST` to the HeavyNode API.
#[derive(Debug)]
pub struct ApiRequest {
    pub url: String,
    /// Header names and values, in the order they are sent.
    pub headers: Vec<(String, String)>,
    /// The JSON body.
    pub body: String,
}

/// An API request, its texts taken as character sequences.
pub struct ApiRequestView {
    pub url: Seq<char>,
    pub headers: Seq<(Seq<char>, Seq<char>)>,
    pub body: Seq<char>,
}

impl View for ApiRequest {
    type V = ApiRequestView;

    open spec fn view(&self) -> ApiRequestView {
        ApiRequestView { url: self.url@, headers: self.headers.deep_view(), body: self.body@ }
    }
}

/// Where the package goes over SFTP.
#[derive(Debug)]
pub struct UploadTarget {
    /// `host:port` of the SSH server.
    pub address: String,
    /// The name the file gets on the server.
    pub remote_file_name: String,
}

/// Everything the server side of an update needs, in the order it is used.
#[derive(Debug)]
pub struct ServerUpdate {
    pub upload: UploadTarget,
    pub stop: ApiRequest,
    pub decompress: ApiRequest,
    pub start: ApiRequest,
    /// The version named by the package, `None` when it names none.
    pub version: Option<String>,
}

/// The headers of every API request: JSON both ways, and the bearer token.
pub open spec fn request_headers_of(api_key: Seq<char>) -> Seq<(Seq<char>, Seq<char>)> {
    seq![
        ("Accept"@, "application/json"@),
        ("Content-Type"@, "application/json"@),
        ("Authorization"@, "Bearer "@ + api_key),
    ]
}

/// The request that sends power signal `command` to the server.
pub open spec fn power_request_of(config: MyConfig, command: Seq<char>) -> ApiRequestView {
    ApiRequestView {
        url: config.base_url@ + "/power"@,
        headers: request_headers_of(config.api_key@),
        body: json_object_text(seq![("signal"@, command)]),
    }
}

/// The request that has the server unpack `file` in its root directory.
pub open spec fn decompress_request_of(config: MyConfig, file: Seq<char>) -> ApiRequestView {
    ApiRequestView {
        url: config.base_url@ + "/files/decompress"@,
        headers: request_headers_of(config.api_key@),
        body: json_object_text(seq![("root"@, "/"@), ("file"@, file)]),
    }
}

/// `host:port` of the SSH server.
pub open spec fn server_address_of(config: MyConfig) -> Seq<char> {
    config.server_name@ + ":"@ + decimal_int(config.server_port as int)
}

/// The message for an answer with status `status` to a `kind` request.
pub open spec fn status_error_of(kind: Seq<char>, status: u16) -> Seq<char> {
    "Error sending "@ + kind + " request: "@ + decimal(status as nat)
}

fn request_headers(api_key: &String) -> (res: Vec<(String, String)>)
    ensures
        res.deep_view() == request_headers_of(api_key@),
{
    let mut bearer = String::from_str("Bearer ");
    bearer.append(api_key.as_str());
    let mut headers: Vec<(String, String)> = Vec::new();
    headers.push((String::from_str("Accept"), String::from_str("application/json")));
    headers.push((String::from_str("Content-Type"), String::from_str("application/json")));
    headers.push((String::from_str("Authorization"), bearer));
    assert(headers.deep_view() =~= request_headers_of(api_key@));
    headers
}

fn api_url(base_url: &String, path: &str) -> (res: String)
    ensures
        res@ == base_url@ + path@,
{
    let mut url = base_url.clone();
    url.append(path);
    url
}

/// The request that sends power signal `command` ("start", "stop") to the
/// server.
pub fn power_server(myconfig: &MyConfig, command: String) -> (res: ApiRequest)
    ensures
        res@ == power_request_of(*myconfig, command@),
{
    let mut fields: Vec<(String, String)> = Vec::new();
    fields.push((String::from_str("signal"), command));
    assert(fields.deep_view() =~= seq![("signal"@, command@)]);
    let body = json_object(&fields);
    ApiRequest {
        url: api_url(&myconfig.base_url, "/power"),
        headers: request_headers(&myconfig.api_key),
        body,
    }
}

/// The request that stops the server.
pub fn stop_server(myconfig: &MyConfig) -> (res: ApiRequest)
    ensures
        res@ == power_request_of(*myconfig, "stop"@),
{
    power_server(myconfig, String::from_str("stop"))
}

/// The request that starts the server.
pub fn start_server(myconfig: &MyConfig) -> (res: ApiRequest)
    ensures
        res@ == power_request_of(*myconfig, "start"@),
{
    power_server(myconfig, String::from_str("start"))
}

/// The request that has the server unpack the uploaded package.
pub fn unzip_on_server(myconfig: &MyConfig, zip_file: &String) -> (res: ApiRequest)
    requires
        file_name_of(zip_file@) is Some,
    ensures
        res@ == decompress_request_of(*myconfig, file_name_of(zip_file@).unwrap()),
{
    let name = match file_name(zip_file.as_str()) {
        Some(name) => name,
        None => {
            assert(false);
            String::new()
        },
    };
    let mut fields: Vec<(String, String)> = Vec::new();
    fields.push((String::from_str("root"), String::from_str("/")));
    fields.push((String::from_str("file"), name));
    assert(fields.deep_view() =~= seq![("root"@, "/"@), ("file"@, file_name_of(zip_file@).unwrap())]);
    let body = json_object(&fields);
    ApiRequest {
        url: api_url(&myconfig.base_url, "/files/decompress"),
        headers: request_headers(&myconfig.api_key),
        body,
    }
}

/// `host:port` of the SSH server.
pub fn server_address(myconfig: &MyConfig) -> (res: String)
    ensures
        res@ == server_address_of(*myconfig),
{
    let mut address = myconfig.server_name.clone();
    address.append(":");
    let port = format_i32(myconfig.server_port);
    address.append(port.as_str());
    address
}

/// Where the package goes: the SSH server and the file's name there.
pub fn upload_zip_file(myconfig: &MyConfig, zip_file: &String) -> (res: UploadTarget)
    requires
        file_name_of(zip_file@) is Some,
    ensures
        res.address@ == server_address_of(*myconfig),
        res.remote_file_name@ == file_name_of(zip_file@).unwrap(),
{
    let remote_file_name = match file_name(zip_file.as_str()) {
        Some(name) => name,
        None => {
            assert(false);
            String::new()
        },
    };
    UploadTarget { address: server_address(myconfig), remote_file_name }
}

/// Judges the answer to a `request_kind` request ("power", "decompress"):
/// success statuses (200 to 299) pass, any other gives the error message.
pub fn check_response(status: u16, request_kind: &str) -> (res: Result<(), String>)
    ensures
        match res {
            Ok(()) => 200 <= status < 300,
            Err(message) => !(200 <= status < 300) && message@ == status_error_of(
                request_kind@,
                status,
            ),
        },
{
    if 200 <= status && status < 300 {
        Ok(())
    } else {
        let mut message = String::from_str("Error sending ");
        message.append(request_kind);
        message.append(" request: ");
        let code = format_u64(status as u64);
        message.append(code.as_str());
        Err(message)
    }
}

/// The version to record once the package is installed: the one its path
/// names.
pub fn save_version(myconfig: &MyConfig, zip_file: &String) -> (res: String)
    requires
        version_in(zip_file@) is Some,
    ensures
        res@ == version_in(zip_file@).unwrap(),
{
    get_version_from_string(zip_file)
}

/// The version the package's path names, `None` when it names none.
pub fn saved_version(myconfig: &MyConfig, zip_file: &String) -> (res: Option<String>)
    ensures
        res.deep_view() == version_in(zip_file@),
{
    if find_version(zip_file).is_some() {
        Some(save_version(myconfig, zip_file))
    } else {
        None
    }
}

/// All the server side of installing the package at `zip_file` needs;
/// `None` when the path has no file name.
pub fn server_update(myconfig: &MyConfig, zip_file: &String) -> (res: Option<ServerUpdate>)
    ensures
        res is None <==> file_name_of(zip_file@) is None,
        res matches Some(u) ==> {
            &&& u.upload.address@ == server_address_of(*myconfig)
            &&& u.upload.remote_file_name@ == file_name_of(zip_file@).unwrap()
            &&& u.stop@ == power_request_of(*myconfig, "stop"@)
            &&& u.decompress@ == decompress_request_of(
                *myconfig,
                file_name_of(zip_file@).unwrap(),
            )
            &&& u.start@ == power_request_of(*myconfig, "start"@)
            &&& u.version.deep_view() == version_in(zip_file@)
        },
{
    if file_name(zip_file.as_str()).is_none() {
        return None;
    }
    Some(
        ServerUpdate {
            upload: upload_zip_file(myconfig, zip_file),
            stop: stop_server(myconfig),
            decompress: unzip_on_server(myconfig, zip_file),
            start: start_server(myconfig),
            version: saved_version(myconfig, zip_file),
        },
    )
}

/// Every API request carries the whole API key: its third header is
/// `Authorization: Bearer <api_key>`, after `Accept` and `Content-Type` for
/// JSON, whatever the key's length, and different keys give different headers.
pub proof fn lemma_requests_carry_whole_key(config: MyConfig, command: Seq<char>, file: Seq<char>, other_key: Seq<char>)
    ensures
        ({
            let key = config.api_key@;
            let hs = request_headers_of(key);
            &&& hs.len() == 3
            &&& hs[0] == ("Accept"@, "application/json"@)
            &&& hs[1] == ("Content-Type"@, "application/json"@)
            &&& hs[2].0 == "Authorization"@
            &&& hs[2].1.len() == key.len() + 7
            &&& hs[2].1.take(7) == "Bearer "@
            &&& hs[2].1.skip(7) == key
            &&& power_request_of(config, command).headers == hs
            &&& decompress_request_of(config, file).headers == hs
            &&& (request_headers_of(other_key) == hs ==> other_key == key)
        }),
{
    reveal_strlit("Bearer ");
    let key = config.api_key@;
    let v = request_headers_of(key)[2].1;
    assert(v.take(7) =~= "Bearer "@);
    assert(v.skip(7) =~= key);
    let w = request_headers_of(other_key)[2].1;
    assert(w.skip(7) =~= other_key);
}

/// The SSH address is the server name, a `:`, and the port in decimal: a
/// non-negative port reads back from what follows the `:` as itself, and a
/// negative one as its magnitude after a `-`.
pub proof fn lemma_address_names_host_and_port(config: MyConfig)
    ensures
        ({
            let name = config.server_name@;
            let address = server_address_of(config);
            let port_text = address.skip(name.len() as int + 1);
            &&& address.take(name.len() as int) == name
            &&& address[name.len() as int] == ':'
            &&& config.server_port >= 0 ==> parse_digits(port_text) == Some(config.server_port as int)
            &&& config.server_port < 0 ==> port_text[0] == '-' && all_digits(port_text.skip(1))
                && digits_value(port_text.skip(1)) == -(config.server_port as int)
        }),
{
    reveal_strlit(":");
    let name = config.server_name@;
    let address = server_address_of(config);
    let p = config.server_port as int;
    assert(address.take(name.len() as int) =~= name);
    assert(address[name.len() as int] == ':');
    if p >= 0 {
        assert(address.skip(name.len() as int + 1) =~= decimal(p as nat));
        lemma_parse_decimal(p as nat);
    } else {
        assert(address.skip(name.len() as int + 1) =~= seq!['-'] + decimal((-p) as nat));
        assert(address.skip(name.len() as int + 1).skip(1) =~= decimal((-p) as nat));
        lemma_decimal_reads_back((-p) as nat);
    }
}

/// The message for a refused request names the request's kind and ends with
/// the status code, which reads back as the status.
pub proof fn lemma_status_message_names_code(kind: Seq<char>, status: u16)
    ensures
        ({
            let m = status_error_of(kind, status);
            &&& m.take(14) == "Error sending "@
            &&& m.subrange(14, 14 + kind.len() as int) == kind
            &&& m.subrange(14 + kind.len() as int, 24 + kind.len() as int) == " request: "@
            &&& parse_digits(m.skip(24 + kind.len() as int)) == Some(status as int)
        }),
{
    reveal_strlit("Error sending ");
    reveal_strlit(" request: ");
    let m = status_error_of(kind, status);
    assert(m.take(14) =~= "Error sending "@);
    assert(m.subrange(14, 14 + kind.len() as int) =~= kind);
    assert(m.subrange(14 + kind.len() as int, 24 + kind.len() as int) =~= " request: "@);
    assert(m.skip(24 + kind.len() as int) =~= decimal(status as nat));
    lemma_parse_decimal(status as nat);
}

/// The power and unpack requests go to the API's base URL followed by
/// `/power` and `/files/decompress`, and their bodies are the JSON objects
/// `{"signal": command}` and `{"root": "/", "file": file}`.
pub proof fn lemma_request_targets_and_bodies(config: MyConfig, command: Seq<char>, file: Seq<char>)
    ensures
        ({
            let base = config.base_url@;
            let p = power_request_of(config, command);
            let d = decompress_request_of(config, file);
            &&& p.url.take(base.len() as int) == base
            &&& p.url.skip(base.len() as int) == seq!['/', 'p', 'o', 'w', 'e', 'r']
            &&& d.url.take(base.len() as int) == base
            &&& d.url.skip(base.len() as int) == "/files/decompress"@
            &&& d.url.len() == base.len() + 17
            &&& p.body == json_object_text(seq![(seq!['s', 'i', 'g', 'n', 'a', 'l'], command)])
            &&& d.body == json_object_text(
                seq![(seq!['r', 'o', 'o', 't'], seq!['/']), (seq!['f', 'i', 'l', 'e'], file)],
            )
        }),
{
    reveal_strlit("/power");
    reveal_strlit("/files/decompress");
    reveal_strlit("signal");
    reveal_strlit("root");
    reveal_strlit("/");
    reveal_strlit("file");
    let base = config.base_url@;
    let p = power_request_of(config, command);
    let d = decompress_request_of(config, file);
    assert(p.url.take(base.len() as int) =~= base);
    assert(p.url.skip(base.len() as int) =~= seq!['/', 'p', 'o', 'w', 'e', 'r']);
    assert(d.url.take(base.len() as int) =~= base);
    assert(d.url.skip(base.len() as int) =~= "/files/decompress"@);
    assert("signal"@ =~= seq!['s', 'i', 'g', 'n', 'a', 'l']);
    assert("root"@ =~= seq!['r', 'o', 'o', 't']);
    assert("/"@ =~= seq!['/']);
    assert("file"@ =~= seq!['f', 'i', 'l', 'e']);
}

} // verus!

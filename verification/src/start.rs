//! Decisions of the `start` command: the `ops` command line that launches the
//! container's unikernel.
use crate::env::{env_entry, env_value, EnvEntry, EnvLookup};
use crate::schema::{texts, OCIConfig};
use vstd::prelude::*;

verus! {

broadcast use vstd::string::group_string_axioms;

/// The arguments of `ops` that create an instance of the image `service` on
/// premises, published on `port` unless `port` is empty.
pub open spec fn ops_args_of(service: Seq<char>, port: Seq<char>) -> Seq<Seq<char>> {
    if port.len() == 0 {
        seq!["instance"@, "create"@, service, "-i"@, service, "-t"@, "onprem"@]
    } else {
        seq!["instance"@, "create"@, service, "-i"@, service, "-p"@, port, "-t"@, "onprem"@]
    }
}

/// The environment names the service well enough to launch it, or does not
/// name it at all: a `SERVICE_NAME` entry holds `=`, and then a `PORT` entry
/// exists and holds `=` too.
pub open spec fn start_env_usable(envs: Seq<Seq<char>>) -> bool {
    match env_entry(envs, "SERVICE_NAME"@) {
        EnvEntry::Missing => true,
        EnvEntry::Malformed => false,
        EnvEntry::Value(_) => env_entry(envs, "PORT"@) is Value,
    }
}

/// The arguments of `ops` that create an instance of `service`, published on
/// `port` unless `port` is empty.
pub fn ops_args(service: &str, port: &str) -> (args: Vec<String>)
    ensures
        texts(args@) == ops_args_of(service@, port@),
{
    let mut args: Vec<String> = Vec::new();
    args.push(String::from_str("instance"));
    args.push(String::from_str("create"));
    args.push(String::from_str(service));
    args.push(String::from_str("-i"));
    args.push(String::from_str(service));
    if port.is_empty() {
        args.push(String::from_str("-t"));
        args.push(String::from_str("onprem"));
    } else {
        args.push(String::from_str("-p"));
        args.push(String::from_str(port));
        args.push(String::from_str("-t"));
        args.push(String::from_str("onprem"));
    }
    assert(texts(args@) =~= ops_args_of(service@, port@));
    args
}

/// The `ops` arguments that launch the unikernel of a container: the image is
/// the value of `SERVICE_NAME`, the port the value of `PORT`. `None` where the
/// environment names no service (nothing is launched).
pub fn ops_instance_args(config: &OCIConfig) -> (r: Option<Vec<String>>)
    requires
        start_env_usable(texts(config.process.env@)),
    ensures
        r is None <==> env_entry(texts(config.process.env@), "SERVICE_NAME"@) is Missing,
        r matches Some(args) ==> (env_entry(texts(config.process.env@), "SERVICE_NAME"@) matches EnvEntry::Value(service)
            && env_entry(texts(config.process.env@), "PORT"@) matches EnvEntry::Value(port)
            && texts(args@) == ops_args_of(service, port)),
{
    let service = env_value(&config.process.env, "SERVICE_NAME");
    match service {
        EnvLookup::Value(s) => {
            let port = env_value(&config.process.env, "PORT");
            match port {
                EnvLookup::Value(p) => Some(ops_args(s.as_str(), p.as_str())),
                _ => {
                    assert(false);
                    None
                },
            }
        },
        _ => None,
    }
}

/// Every position of the command line is fixed: without a port it is
/// `instance create S -i S -t onprem`, with a port `P` it is
/// `instance create S -i S -p P -t onprem`, which is the former with `-p P`
/// put before `-t`.
pub proof fn lemma_ops_args_positions(service: Seq<char>, port: Seq<char>)
    ensures
        port.len() == 0 ==> ({
            let a = ops_args_of(service, port);
            &&& a.len() == 7
            &&& a[0] == "instance"@
            &&& a[1] == "create"@
            &&& a[2] == service
            &&& a[3] == "-i"@
            &&& a[4] == service
            &&& a[5] == "-t"@
            &&& a[6] == "onprem"@
        }),
        port.len() > 0 ==> ({
            let a = ops_args_of(service, port);
            &&& a.len() == 9
            &&& a[0] == "instance"@
            &&& a[1] == "create"@
            &&& a[2] == service
            &&& a[3] == "-i"@
            &&& a[4] == service
            &&& a[5] == "-p"@
            &&& a[6] == port
            &&& a[7] == "-t"@
            &&& a[8] == "onprem"@
        }),
        port.len() > 0 ==> ops_args_of(service, port) == ops_args_of(service, Seq::empty()).take(5)
            + seq!["-p"@, port] + ops_args_of(service, Seq::empty()).skip(5),
{
    if port.len() > 0 {
        let a = ops_args_of(service, port);
        let b = ops_args_of(service, Seq::empty());
        assert(a =~= b.take(5) + seq!["-p"@, port] + b.skip(5));
    }
}

/// The service name stands as the image and as the instance name, the command
/// always ends with the on-premises target, and a port is published exactly
/// when one is given.
pub proof fn lemma_ops_args_shape(service: Seq<char>, port: Seq<char>)
    ensures
        ops_args_of(service, port)[0] == "instance"@,
        ops_args_of(service, port)[1] == "create"@,
        ops_args_of(service, port)[2] == service,
        ops_args_of(service, port)[4] == service,
        ops_args_of(service, port).last() == "onprem"@,
        ops_args_of(service, port).contains("-p"@) <==> port.len() > 0 || service == "-p"@,
        port.len() > 0 ==> ops_args_of(service, port)[6] == port,
{
    reveal_strlit("-p");
    reveal_strlit("-i");
    reveal_strlit("-t");
    reveal_strlit("instance");
    reveal_strlit("create");
    reveal_strlit("onprem");
    let a = ops_args_of(service, port);
    if port.len() > 0 {
        assert(a[5] == "-p"@);
    } else if a.contains("-p"@) {
        let j = choose|j: int| 0 <= j < a.len() && a[j] == "-p"@;
        assert("instance"@.len() != "-p"@.len());
        assert("create"@.len() != "-p"@.len());
        assert("onprem"@.len() != "-p"@.len());
        assert("-i"@[1] != "-p"@[1]);
        assert("-t"@[1] != "-p"@[1]);
        assert(j == 2 || j == 4);
    }
    if service == "-p"@ {
        assert(a[2] == "-p"@);
    }
}

} // verus!

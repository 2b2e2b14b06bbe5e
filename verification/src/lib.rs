//! A PROFINET IO controller library: frame codecs, record parsers, and the
//! state machines that drive discovery, the RPC association, cyclic data and
//! alarms.

pub mod alarm_layout;
pub mod alarm_listener;
pub mod alarms;
pub mod blocks;
pub mod bytes;
pub mod calls;
pub mod capture_check;
pub mod cli;
pub mod commands;
pub mod connect;
pub mod connection;
pub mod control;
pub mod cyclic;
pub mod dcp;
pub mod device;
pub mod diagnosis;
pub mod diagnosis_layout;
pub mod diagnosis_reads;
pub mod epm;
pub mod epm_layout;
pub mod errors;
pub mod gsdml;
pub mod im;
pub mod im_layout;
pub mod indices;
pub mod json;
pub mod line_reader;
pub mod lines;
pub mod pcap;
pub mod random;
pub mod raw_l2;
pub mod rawudp;
pub mod records;
pub mod replay;
pub mod request_lines;
pub mod requests;
pub mod rpc;
pub mod rt;
pub mod serve;
pub mod serve_run;
pub mod serving;
pub mod shutdown;
pub mod takeover;
pub mod text;
pub mod tier;
pub mod topology_layout;
pub mod transport;
pub mod util;

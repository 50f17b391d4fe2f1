use vstd::prelude::*;
use vstd::string::StringExecFns;
use crate::constants::{
    CATALOG_DIR, CFG_DIR_NAME, CFG_FILE_NAME, DEFAULT_CAPACITY, SEGMENT_DIR, VOLUME_COUNT,
};
use crate::error::Error;
use crate::keys::random_private_key;
use crate::text::{byte_to_decimal, decimal};

verus! {

/// Where the node keeps its configuration.
pub struct EnvCfg {
    pub data_cfg_dir: String,
    pub data_cfg_file: String,
}

/// One storage volume of the node.
pub struct Volume {
    /// Path to the mounted volume.
    pub path: String,
}

/// The configuration that the storage core reads.
pub struct SysCfg {
    /// The node's long-term private key.
    pub private_key: [u8; 32],
    /// The storage volumes, in order; the core works with exactly eight.
    pub volumes: Vec<Volume>,
    /// Total allocated capacity for the node in megabytes.
    pub capacity: u64,
}

/// The path of `name` inside the directory `dir`.
pub open spec fn joined(dir: Seq<char>, name: Seq<char>) -> Seq<char> {
    dir + seq!['/'] + name
}

/// The text of `CFG_DIR_NAME`.
pub open spec fn cfg_dir_text() -> Seq<char> {
    seq!['c', 'a', 'r', 'b', 'o', 'n', 'a', 'd', 'o']
}

/// The text of `CFG_FILE_NAME`.
pub open spec fn cfg_file_text() -> Seq<char> {
    seq!['c', 'f', 'g', '.', 't', 'o', 'm', 'l']
}

/// The text of `SEGMENT_DIR`.
pub open spec fn segment_dir_text() -> Seq<char> {
    seq!['s', 'e', 'g', 'm', 'e', 'n', 't', 's']
}

/// The text of `CATALOG_DIR`.
pub open spec fn catalog_dir_text() -> Seq<char> {
    seq!['c', 'a', 't', 'a', 'l', 'o', 'g', 's']
}

/// The path of the `i`-th volume of a node whose configuration names none.
pub open spec fn default_volume_text(i: nat) -> Seq<char> {
    seq!['/', 't', 'm', 'p', '/', 'c', 'a', 'r', 'b', 'o', 'n', 'a', 'd', 'o', '-'] + decimal(i)
}

/// The paths of a sequence of volumes.
pub open spec fn volume_paths(volumes: Seq<Volume>) -> Seq<Seq<char>> {
    Seq::new(volumes.len(), |i: int| volumes[i].path@)
}

/// The paths of the eight volumes of a node whose configuration names none.
pub open spec fn default_volume_paths() -> Seq<Seq<char>> {
    Seq::new(VOLUME_COUNT as nat, |i: int| default_volume_text(i as nat))
}

/// The directories that hold the node's files: for each volume its segment
/// directory and its catalog directory.
pub open spec fn storage_dir_texts(paths: Seq<Seq<char>>) -> Seq<Seq<char>> {
    Seq::new(
        2 * paths.len(),
        |k: int|
            if k % 2 == 0 {
                joined(paths[k / 2], segment_dir_text())
            } else {
                joined(paths[k / 2], catalog_dir_text())
            },
    )
}

/// Joins a directory and a name with a slash.
pub fn join_path(dir: &str, name: &str) -> (path: String)
    ensures
        path@ == joined(dir@, name@),
{
    let mut path = String::from_str(dir);
    proof {
        reveal_strlit("/");
    }
    assert("/"@ =~= seq!['/']);
    path.append("/");
    path.append(name);
    path
}

/// Decides where the configuration lives: in the directory that the environment
/// names, or else in the node's directory below the user's configuration
/// directory. Without a user configuration directory there is no answer.
pub fn init_env_cfg(base_config_dir: Option<String>, data_cfg_dir: Option<String>) -> (res: Result<
    EnvCfg,
    Error,
>)
    ensures
        base_config_dir is None ==> (res matches Err(e) && e == Error::ConfigInvalid),
        base_config_dir matches Some(base) ==> (res matches Ok(env) && env.data_cfg_dir@ == (
        match data_cfg_dir {
            Some(dir) => dir@,
            None => joined(base@, cfg_dir_text()),
        }) && env.data_cfg_file@ == joined(env.data_cfg_dir@, cfg_file_text())),
{
    proof {
        reveal_strlit("carbonado");
        reveal_strlit("cfg.toml");
    }
    assert(CFG_DIR_NAME@ =~= cfg_dir_text());
    assert(CFG_FILE_NAME@ =~= cfg_file_text());
    let base = match base_config_dir {
        Some(base) => base,
        None => {
            return Err(Error::ConfigInvalid);
        },
    };
    let data_cfg_dir = match data_cfg_dir {
        Some(dir) => dir,
        None => join_path(base.as_str(), CFG_DIR_NAME),
    };
    let data_cfg_file = join_path(data_cfg_dir.as_str(), CFG_FILE_NAME);
    Ok(EnvCfg { data_cfg_dir, data_cfg_file })
}

/// The eight volumes under `/tmp` of a node whose configuration names none.
pub fn default_volumes() -> (volumes: Vec<Volume>)
    ensures
        volume_paths(volumes@) == default_volume_paths(),
{
    let mut volumes: Vec<Volume> = Vec::new();
    let mut i: usize = 0;
    proof {
        reveal_strlit("/tmp/carbonado-");
    }
    while i < VOLUME_COUNT
        invariant
            i <= VOLUME_COUNT,
            volumes@.len() == i,
            forall|k: int|
                0 <= k < i ==> (#[trigger] volumes@[k]).path@ == default_volume_text(k as nat),
        decreases VOLUME_COUNT - i,
    {
        let mut path = String::from_str("/tmp/carbonado-");
        assert(path@ =~= seq![
            '/',
            't',
            'm',
            'p',
            '/',
            'c',
            'a',
            'r',
            'b',
            'o',
            'n',
            'a',
            'd',
            'o',
            '-',
        ]) by {
            reveal_strlit("/tmp/carbonado-");
        }
        let number = byte_to_decimal(i as u8);
        path.append(number.as_str());
        volumes.push(Volume { path });
        i = i + 1;
    }
    assert(volume_paths(volumes@) =~= default_volume_paths());
    volumes
}

/// Completes what the configuration file holds: a missing private key is drawn
/// at random, missing volumes are the eight defaults, a missing capacity is
/// `DEFAULT_CAPACITY`.
pub fn init_sys_cfg(
    private_key: Option<[u8; 32]>,
    volume: Option<Vec<Volume>>,
    capacity: Option<u64>,
) -> (cfg: SysCfg)
    ensures
        private_key matches Some(key) ==> cfg.private_key@ == key@,
        volume_paths(cfg.volumes@) == (match volume {
            Some(volumes) => volume_paths(volumes@),
            None => default_volume_paths(),
        }),
        cfg.capacity == (match capacity {
            Some(c) => c,
            None => DEFAULT_CAPACITY,
        }),
{
    let private_key = match private_key {
        Some(key) => key,
        None => random_private_key(),
    };
    let volumes = match volume {
        Some(volumes) => volumes,
        None => default_volumes(),
    };
    let capacity = match capacity {
        Some(c) => c,
        None => DEFAULT_CAPACITY,
    };
    SysCfg { private_key, volumes, capacity }
}

/// Lists the directories that must exist before the node stores anything.
pub fn storage_dirs(volumes: &Vec<Volume>) -> (dirs: Vec<String>)
    ensures
        dirs@.len() == 2 * volumes@.len(),
        forall|k: int|
            0 <= k < dirs@.len() ==> (#[trigger] dirs@[k])@ == storage_dir_texts(
                volume_paths(volumes@),
            )[k],
{
    proof {
        reveal_strlit("segments");
        reveal_strlit("catalogs");
    }
    assert(SEGMENT_DIR@ =~= segment_dir_text());
    assert(CATALOG_DIR@ =~= catalog_dir_text());
    let mut dirs: Vec<String> = Vec::new();
    let mut i: usize = 0;
    while i < volumes.len()
        invariant
            i <= volumes@.len(),
            SEGMENT_DIR@ == segment_dir_text(),
            CATALOG_DIR@ == catalog_dir_text(),
            dirs@.len() == 2 * i,
            forall|k: int|
                0 <= k < 2 * i ==> (#[trigger] dirs@[k])@ == storage_dir_texts(
                    volume_paths(volumes@),
                )[k],
        decreases volumes@.len() - i,
    {
        dirs.push(join_path(volumes[i].path.as_str(), SEGMENT_DIR));
        dirs.push(join_path(volumes[i].path.as_str(), CATALOG_DIR));
        i = i + 1;
    }
    dirs
}

} // verus!

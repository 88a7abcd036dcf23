use vstd::prelude::*;

verus! {

/// Where the access token is kept: a directory and the file in it.
#[derive(Debug, Clone)]
pub struct ConfigManager {
    base_dir: String,
}

/// `name` joined to the directory `dir` with one `/` between them.
pub open spec fn join_path(dir: Seq<char>, name: Seq<char>) -> Seq<char> {
    if dir.len() == 0 {
        name
    } else if dir.last() == '/' {
        dir + name
    } else {
        dir + "/"@ + name
    }
}

impl ConfigManager {
    pub closed spec fn dir(&self) -> Seq<char> {
        self.base_dir@
    }

    /// A manager that keeps its file in `base_dir`.
    #[verifier::spinoff_prover]
    pub fn with_base_dir(base_dir: &str) -> (r: ConfigManager)
        ensures
            r.dir() == base_dir@,
    {
        ConfigManager { base_dir: String::from_str(base_dir) }
    }

    /// The path of the file that holds the token: `config.toml` in the directory.
    #[verifier::spinoff_prover]
    pub fn config_file(&self) -> (r: String)
        ensures
            r@ == join_path(self.dir(), "config.toml"@),
    {
        let c = crate::text::chars_of(self.base_dir.as_str());
        let mut path = self.base_dir.clone();
        if c.len() == 0 {
            return String::from_str("config.toml");
        }
        if c[c.len() - 1] != '/' {
            path.append("/");
        }
        path.append("config.toml");
        path
    }

    /// The directory.
    #[verifier::spinoff_prover]
    pub fn base_dir(&self) -> (r: &str)
        ensures
            r@ == self.dir(),
    {
        self.base_dir.as_str()
    }
}

} // verus!
